//! The driver registry and the inclusion rules.
//!
//! A `DriverList` holds every registered driver in preference order and the
//! one selected for the run.  It owns the two inclusion predicates — the
//! fast check on a path's extension and the fallback check on a probed
//! content type — because those must not depend on which driver produced
//! the answer.  `classify` combines them into the decision a worker takes
//! for one queued path.

use vstd::prelude::*;

use crate::driver::Driver;
use crate::driver::FileDriver;
use crate::driver::GenericDriver;
use crate::driver::MimeDriver;
use crate::text::ends_with;
use crate::text::has_suffix;
use crate::text::last_pos;
use crate::text::lemma_last_pos;
use crate::text::rfind;
use crate::text::str_eq;
use crate::text::trim_blank;
use crate::text::trim_spec;

verus! {

/// The extension of a path's rendering: what follows the last `.` of the
/// final path component, unless that dot starts the component.
pub open spec fn spec_extension(p: Seq<char>) -> Option<Seq<char>> {
    let ls = last_pos(p, '/');
    let ld = last_pos(p, '.');
    if ld > ls + 1 {
        Some(p.subrange(ld + 1, p.len() as int))
    } else {
        None
    }
}

/// The fixed allow-list of source-code extensions (exact, case-sensitive).
pub open spec fn ext_in_list(e: Seq<char>) -> bool {
    ||| e == "asm"@
    ||| e == "c"@
    ||| e == "cc"@
    ||| e == "cpp"@
    ||| e == "cs"@
    ||| e == "cxx"@
    ||| e == "erl"@
    ||| e == "go"@
    ||| e == "h"@
    ||| e == "hpp"@
    ||| e == "hxx"@
    ||| e == "java"@
    ||| e == "js"@
    ||| e == "lua"@
    ||| e == "php"@
    ||| e == "pl"@
    ||| e == "pm"@
    ||| e == "py"@
    ||| e == "rb"@
    ||| e == "rs"@
    ||| e == "s"@
    ||| e == "sh"@
    ||| e == "S"@
    ||| e == "tcl"@
}

/// A path is included by extension when it has an extension on the
/// allow-list.
pub open spec fn ext_included(p: Seq<char>) -> bool {
    match spec_extension(p) {
        Some(e) => ext_in_list(e),
        None => false,
    }
}

/// The fixed allow-list of content-type suffixes.  Suffix matching
/// tolerates vendor prefixes on the reported type string.
pub open spec fn mime_in_list(m: Seq<char>) -> bool {
    ||| has_suffix(m, "rust"@)
    ||| has_suffix(m, "x-c++"@)
    ||| has_suffix(m, "x-c++src"@)
    ||| has_suffix(m, "x-c++hdr"@)
    ||| has_suffix(m, "x-chdr"@)
    ||| has_suffix(m, "x-csharp"@)
    ||| has_suffix(m, "x-csrc"@)
    ||| has_suffix(m, "x-erlang"@)
    ||| has_suffix(m, "x-java"@)
    ||| has_suffix(m, "x-javascript"@)
    ||| has_suffix(m, "x-lua"@)
    ||| has_suffix(m, "x-perl"@)
    ||| has_suffix(m, "x-php"@)
    ||| has_suffix(m, "x-python"@)
    ||| has_suffix(m, "x-ruby"@)
    ||| has_suffix(m, "x-shellscript"@)
    ||| has_suffix(m, "x-tcl"@)
    ||| has_suffix(m, "x-c"@)
}

/// The registered drivers, in preference order: the content-sniffing tool
/// before the OS-association tool, for its finer source-code subtypes.
pub open spec fn registered_drivers() -> Seq<GenericDriver> {
    seq![
        GenericDriver::MimeDriver(MimeDriver {  }),
        GenericDriver::FileDriver(FileDriver {  }),
    ]
}

/// Which driver a request selects.  An explicit name picks the first
/// registered driver of that name, with no fallback; no name picks the
/// first driver whose availability probe succeeded.
pub open spec fn spec_selection(select: Option<Seq<char>>, avail: Seq<bool>) -> Option<
    GenericDriver,
> {
    match select {
        Some(name) => {
            if name == "xdg-mime"@ {
                Some(GenericDriver::MimeDriver(MimeDriver {  }))
            } else if name == "file"@ {
                Some(GenericDriver::FileDriver(FileDriver {  }))
            } else {
                None
            }
        },
        None => {
            if avail[0] {
                Some(GenericDriver::MimeDriver(MimeDriver {  }))
            } else if avail[1] {
                Some(GenericDriver::FileDriver(FileDriver {  }))
            } else {
                None
            }
        },
    }
}

/// One row of the listing: a registered driver, whether its availability
/// probe succeeded, and whether it is the selected one.
#[derive(Debug)]
pub struct DriverEntry {
    pub name: String,
    pub usable: bool,
    pub current: bool,
}

/// What a worker decided for one queued path.
#[derive(Debug)]
pub enum Classification {
    /// Included on the fast path: the extension is on the allow-list.
    IncludeByExtension,
    /// Included because the probed content type (trimmed) matched.
    IncludeByMime(String),
    /// Dropped: the probed content type (trimmed) matched nothing.
    Exclude(String),
    /// Dropped with a diagnostic: the probe failed.
    ProbeFailed,
}

/// The mathematical value of a `Classification`, over sequences.
pub enum Decision {
    ByExtension,
    ByType(Seq<char>),
    Excluded(Seq<char>),
    Undetermined,
}

/// The decision `classify` owes for a path, given the probe's outcome
/// (`None` when the probe failed or was never run).
pub open spec fn spec_decide(path: Seq<char>, probe: Option<Seq<char>>) -> Decision {
    if ext_included(path) {
        Decision::ByExtension
    } else {
        match probe {
            None => Decision::Undetermined,
            Some(out) => {
                let m = trim_spec(out);
                if mime_in_list(m) {
                    Decision::ByType(m)
                } else {
                    Decision::Excluded(m)
                }
            },
        }
    }
}

/// The decision a `Classification` renders.
pub open spec fn decision_of(c: Classification) -> Decision {
    match c {
        Classification::IncludeByExtension => Decision::ByExtension,
        Classification::IncludeByMime(m) => Decision::ByType(m@),
        Classification::Exclude(m) => Decision::Excluded(m@),
        Classification::ProbeFailed => Decision::Undetermined,
    }
}

/// A path with an allow-listed extension is included whatever any probe
/// would have answered: the decision is the same for every probe outcome,
/// so no probe need ever be run for it.
pub proof fn lemma_extension_fast_path(
    path: Seq<char>,
    probe_a: Option<Seq<char>>,
    probe_b: Option<Seq<char>>,
)
    requires
        ext_included(path),
    ensures
        spec_decide(path, probe_a) == Decision::ByExtension,
        spec_decide(path, probe_a) == spec_decide(path, probe_b),
{
}

proof fn lemma_suffix_extends(prefix: Seq<char>, m: Seq<char>, s: Seq<char>)
    requires
        has_suffix(m, s),
    ensures
        has_suffix(prefix + m, s),
{
    assert((prefix + m).subrange((prefix + m).len() - s.len(), (prefix + m).len() as int)
        =~= m.subrange(m.len() - s.len(), m.len() as int));
}

/// Type inclusion is pure suffix membership: a reported type that matches
/// still matches with any vendor prefix in front of it.
pub proof fn lemma_type_match_tolerates_prefix(prefix: Seq<char>, m: Seq<char>)
    requires
        mime_in_list(m),
    ensures
        mime_in_list(prefix + m),
{
    if has_suffix(m, "rust"@) {
        lemma_suffix_extends(prefix, m, "rust"@);
    }
    if has_suffix(m, "x-c++"@) {
        lemma_suffix_extends(prefix, m, "x-c++"@);
    }
    if has_suffix(m, "x-c++src"@) {
        lemma_suffix_extends(prefix, m, "x-c++src"@);
    }
    if has_suffix(m, "x-c++hdr"@) {
        lemma_suffix_extends(prefix, m, "x-c++hdr"@);
    }
    if has_suffix(m, "x-chdr"@) {
        lemma_suffix_extends(prefix, m, "x-chdr"@);
    }
    if has_suffix(m, "x-csharp"@) {
        lemma_suffix_extends(prefix, m, "x-csharp"@);
    }
    if has_suffix(m, "x-csrc"@) {
        lemma_suffix_extends(prefix, m, "x-csrc"@);
    }
    if has_suffix(m, "x-erlang"@) {
        lemma_suffix_extends(prefix, m, "x-erlang"@);
    }
    if has_suffix(m, "x-java"@) {
        lemma_suffix_extends(prefix, m, "x-java"@);
    }
    if has_suffix(m, "x-javascript"@) {
        lemma_suffix_extends(prefix, m, "x-javascript"@);
    }
    if has_suffix(m, "x-lua"@) {
        lemma_suffix_extends(prefix, m, "x-lua"@);
    }
    if has_suffix(m, "x-perl"@) {
        lemma_suffix_extends(prefix, m, "x-perl"@);
    }
    if has_suffix(m, "x-php"@) {
        lemma_suffix_extends(prefix, m, "x-php"@);
    }
    if has_suffix(m, "x-python"@) {
        lemma_suffix_extends(prefix, m, "x-python"@);
    }
    if has_suffix(m, "x-ruby"@) {
        lemma_suffix_extends(prefix, m, "x-ruby"@);
    }
    if has_suffix(m, "x-shellscript"@) {
        lemma_suffix_extends(prefix, m, "x-shellscript"@);
    }
    if has_suffix(m, "x-tcl"@) {
        lemma_suffix_extends(prefix, m, "x-tcl"@);
    }
    if has_suffix(m, "x-c"@) {
        lemma_suffix_extends(prefix, m, "x-c"@);
    }
}

/// The listing marks at most one driver as current: the registered
/// drivers are pairwise distinct, so a selection singles one out.
pub proof fn lemma_at_most_one_current(dl: DriverList)
    requires
        dl.wf(),
    ensures
        forall|i: int, j: int|
            0 <= i < dl.spec_drivers().len() && 0 <= j < dl.spec_drivers().len()
                && dl.spec_current() == Some(dl.spec_drivers()[i]) && dl.spec_current() == Some(
                dl.spec_drivers()[j],
            ) ==> i == j,
{
    assert(dl.spec_drivers()[0] != dl.spec_drivers()[1]);
}

/// The extension of a path's rendering, per `spec_extension`.
pub fn extension_of(p: &str) -> (r: Option<&str>)
    ensures
        match r {
            Some(e) => spec_extension(p@) == Some(e@),
            None => spec_extension(p@) is None,
        },
{
    let n = p.unicode_len();
    let slash = rfind(p, '/');
    let dot = rfind(p, '.');
    proof {
        lemma_last_pos(p@, '/');
        lemma_last_pos(p@, '.');
    }
    match dot {
        None => None,
        Some(ld) => {
            let found = match slash {
                None => ld >= 1,
                Some(ls) => ld >= 1 && ld - 1 > ls,
            };
            if found {
                Some(p.substring_char(ld + 1, n))
            } else {
                None
            }
        },
    }
}

fn is_listed_extension(e: &str) -> (r: bool)
    ensures
        r == ext_in_list(e@),
{
    str_eq(e, "asm") || str_eq(e, "c") || str_eq(e, "cc") || str_eq(e, "cpp") || str_eq(e, "cs")
        || str_eq(e, "cxx") || str_eq(e, "erl") || str_eq(e, "go") || str_eq(e, "h") || str_eq(
        e,
        "hpp",
    ) || str_eq(e, "hxx") || str_eq(e, "java") || str_eq(e, "js") || str_eq(e, "lua") || str_eq(
        e,
        "php",
    ) || str_eq(e, "pl") || str_eq(e, "pm") || str_eq(e, "py") || str_eq(e, "rb") || str_eq(e, "rs")
        || str_eq(e, "s") || str_eq(e, "sh") || str_eq(e, "S") || str_eq(e, "tcl")
}

fn same_driver(a: &GenericDriver, b: &GenericDriver) -> (r: bool)
    ensures
        r == (a == b),
{
    match (a, b) {
        (GenericDriver::MimeDriver(_), GenericDriver::MimeDriver(_)) => true,
        (GenericDriver::FileDriver(_), GenericDriver::FileDriver(_)) => true,
        _ => false,
    }
}

/// A collection of all registered drivers and the one selected for the
/// run.
///
/// Selection happens once, at construction; the list is immutable and
/// shared read-only afterwards.  When no driver could be selected the
/// registry is unusable and the run must not start.
#[derive(Debug)]
pub struct DriverList {
    drivers: Vec<GenericDriver>,
    current: Option<GenericDriver>,
    inspect: bool,
}

impl DriverList {
    /// The registered drivers the registry holds.
    pub closed spec fn spec_drivers(self) -> Seq<GenericDriver> {
        self.drivers@
    }

    /// The selected driver, `None` when the registry is unusable.
    pub closed spec fn spec_current(self) -> Option<GenericDriver> {
        self.current
    }

    /// Whether the run is a dry run.
    pub closed spec fn spec_inspect(self) -> bool {
        self.inspect
    }

    /// The registry holds exactly the registered drivers, and the
    /// selection, if any, is one of them.
    pub open spec fn wf(self) -> bool {
        &&& self.spec_drivers() == registered_drivers()
        &&& match self.spec_current() {
            Some(c) => registered_drivers().contains(c),
            None => true,
        }
    }

    /// The name the registry reports: the selected driver's, or a sentinel
    /// when the registry is unusable right now.
    pub open spec fn spec_display_name(self, usable_now: bool) -> Seq<char> {
        match self.spec_current() {
            Some(d) => {
                if usable_now {
                    d.spec_name()
                } else {
                    "<none>"@
                }
            },
            None => "<none>"@,
        }
    }

    /// Builds the registry and selects the driver for the run.
    ///
    /// `avail` reports, per registered driver in preference order, whether
    /// its availability probe succeeded; it only matters when no explicit
    /// name is given.
    pub fn new(select: Option<&str>, inspect: bool, avail: &Vec<bool>) -> (r: DriverList)
        requires
            avail@.len() == registered_drivers().len(),
        ensures
            r.wf(),
            r.spec_inspect() == inspect,
            r.spec_current() == spec_selection(
                match select {
                    Some(n) => Some(n@),
                    None => None,
                },
                avail@,
            ),
    {
        let mime = GenericDriver::MimeDriver(MimeDriver::new());
        let file_tool = GenericDriver::FileDriver(FileDriver::new());
        let mut drivers: Vec<GenericDriver> = Vec::new();
        drivers.push(mime);
        drivers.push(file_tool);
        proof {
            assert(drivers@ =~= registered_drivers());
        }
        let current: Option<GenericDriver> = match select {
            Some(name) => {
                if str_eq(name, "xdg-mime") {
                    Some(mime)
                } else if str_eq(name, "file") {
                    Some(file_tool)
                } else {
                    None
                }
            },
            None => {
                if avail[0] {
                    Some(mime)
                } else if avail[1] {
                    Some(file_tool)
                } else {
                    None
                }
            },
        };
        DriverList { drivers, current, inspect }
    }

    /// Whether the registry can classify right now: a driver is selected
    /// and its availability probe, run by the caller, just succeeded.
    pub fn usable(&self, current_avail: bool) -> (r: bool)
        ensures
            r == (self.spec_current().is_some() && current_avail),
    {
        self.current.is_some() && current_avail
    }

    /// The selected driver's name, or `"<none>"` when the registry is
    /// unusable (`usable_now` is the caller's fresh probe of the selected
    /// driver).
    pub fn name(&self, usable_now: bool) -> (r: &str)
        ensures
            r@ == self.spec_display_name(usable_now),
    {
        match &self.current {
            Some(d) => {
                if usable_now {
                    d.name()
                } else {
                    "<none>"
                }
            },
            None => "<none>",
        }
    }

    /// The selected driver, for the caller to probe and run.
    pub fn current(&self) -> (r: Option<GenericDriver>)
        ensures
            r == self.spec_current(),
    {
        self.current
    }

    /// Whether the run is a dry run that reports decisions instead of
    /// feeding the sink.
    pub fn is_inspect(&self) -> (r: bool)
        ensures
            r == self.spec_inspect(),
    {
        self.inspect
    }

    /// Renders every registered driver with its availability and whether
    /// it is the selected one.  A pure query: nothing else is touched.
    pub fn list(&self, avail: &Vec<bool>) -> (r: Vec<DriverEntry>)
        requires
            avail@.len() == self.spec_drivers().len(),
        ensures
            r@.len() == self.spec_drivers().len(),
            forall|i: int|
                0 <= i < r@.len() ==> (#[trigger] r@[i]).name@ == self.spec_drivers()[i].spec_name(),
            forall|i: int| 0 <= i < r@.len() ==> (#[trigger] r@[i]).usable == avail@[i],
            forall|i: int|
                0 <= i < r@.len() ==> (#[trigger] r@[i]).current == (self.spec_current()
                    == Some(self.spec_drivers()[i])),
    {
        let mut entries: Vec<DriverEntry> = Vec::new();
        let n = self.drivers.len();
        let mut i: usize = 0;
        while i < n
            invariant
                n == self.spec_drivers().len(),
                avail@.len() == n,
                i <= n,
                entries@.len() == i,
                forall|k: int|
                    0 <= k < i ==> (#[trigger] entries@[k]).name@
                        == self.spec_drivers()[k].spec_name(),
                forall|k: int| 0 <= k < i ==> (#[trigger] entries@[k]).usable == avail@[k],
                forall|k: int|
                    0 <= k < i ==> (#[trigger] entries@[k]).current == (self.spec_current()
                        == Some(self.spec_drivers()[k])),
            decreases n - i,
        {
            let is_current = match &self.current {
                Some(c) => same_driver(c, &self.drivers[i]),
                None => false,
            };
            entries.push(
                DriverEntry {
                    name: self.drivers[i].name().to_owned(),
                    usable: avail[i],
                    current: is_current,
                },
            );
            i += 1;
        }
        entries
    }

    /// The fast inclusion check: the path's extension is on the fixed
    /// allow-list.  No probe is involved.
    pub fn by_extension(&self, path: &str) -> (r: bool)
        ensures
            r == ext_included(path@),
    {
        match extension_of(path) {
            None => false,
            Some(ext) => is_listed_extension(ext),
        }
    }

    /// The fallback inclusion check: the reported content type ends with a
    /// suffix on the fixed allow-list.  Independent of which driver
    /// reported it; the path plays no part in the decision.
    pub fn by_mime(&self, path: &str, mime: &str) -> (r: bool)
        ensures
            r == mime_in_list(mime@),
    {
        ends_with(mime, "rust") || ends_with(mime, "x-c++") || ends_with(mime, "x-c++src")
            || ends_with(mime, "x-c++hdr") || ends_with(mime, "x-chdr") || ends_with(
            mime,
            "x-csharp",
        ) || ends_with(mime, "x-csrc") || ends_with(mime, "x-erlang") || ends_with(mime, "x-java")
            || ends_with(mime, "x-javascript") || ends_with(mime, "x-lua") || ends_with(
            mime,
            "x-perl",
        ) || ends_with(mime, "x-php") || ends_with(mime, "x-python") || ends_with(mime, "x-ruby")
            || ends_with(mime, "x-shellscript") || ends_with(mime, "x-tcl") || ends_with(
            mime,
            "x-c",
        )
    }

    /// The decision for one queued path: the fast extension check first,
    /// else the probed content type, trimmed, against the type rules.
    ///
    /// `probe` is what the selected driver's probe produced for the path
    /// (`None` when it failed or, on the fast path, was never run: the
    /// decision does not read it then).
    pub fn classify(&self, path: &str, probe: Option<&str>) -> (c: Classification)
        ensures
            decision_of(c) == spec_decide(
                path@,
                match probe {
                    Some(o) => Some(o@),
                    None => None,
                },
            ),
    {
        if self.by_extension(path) {
            Classification::IncludeByExtension
        } else {
            match probe {
                None => Classification::ProbeFailed,
                Some(out) => {
                    let m = trim_blank(out);
                    if self.by_mime(path, m) {
                        Classification::IncludeByMime(m.to_owned())
                    } else {
                        Classification::Exclude(m.to_owned())
                    }
                },
            }
        }
    }
}

} // verus!
