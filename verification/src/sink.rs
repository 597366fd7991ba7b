//! The sink that feeds the two external indexer processes.
//!
//! The processes themselves (a cscope and an Exuberant-ctags variant) are
//! started, written to and waited for by the embedding program; the
//! library holds the sink's verified state: which of the two backends
//! started, whether the sink has been closed, what exact line each write
//! owes to each enabled backend, and the decision that picks a working
//! ctags variant.  A backend that failed to start is disabled — its
//! writes become no-ops — rather than failing the whole sink, as long as
//! the other started.

use vstd::prelude::*;

use crate::text::contains_substr;
use crate::text::has_substr;

verus! {

/// Why the sink could not be created.
#[derive(Clone, Copy, Debug, PartialEq, Eq, Structural)]
pub enum SinkError {
    /// Neither indexer backend could be started.
    NoBackend,
}

impl SinkError {
    /// A human-readable rendering of the error.
    pub fn message(&self) -> (r: &str)
        ensures
            r@ == "Cannot create any tag file database."@,
    {
        "Cannot create any tag file database."
    }
}

/// One serialized write: the exact newline-terminated line, and which
/// backends receive it.  The line is written to each enabled backend as
/// one atomic unit; concurrent writers must serialize whole `LineWrite`s,
/// never parts of one.
#[derive(Debug)]
pub struct LineWrite {
    pub line: String,
    pub to_cscope: bool,
    pub to_ctags: bool,
}

/// Tag file creator for the ctags and cscope databases.
///
/// Tracks the sink's lifecycle: which backends are enabled, whether the
/// sink has been closed, and — as ghost state — every line it has ever
/// issued.  Once closed it accepts no further writes; it is closed
/// exactly once, after every worker has stopped writing.
pub struct TagFileCreator {
    cscope: bool,
    ctags: bool,
    closed: bool,
    written: Ghost<Seq<Seq<char>>>,
}

/// One whole newline-terminated line: the unit in which the sink talks
/// to its backends.  Writers hand over nothing smaller, so a serialized
/// backend stream is a concatenation of such lines, never a torn one.
pub open spec fn is_whole_line(l: Seq<char>) -> bool {
    l.len() > 0 && l.last() == '\n'
}

impl TagFileCreator {
    /// Whether the cscope backend started and takes writes.
    pub closed spec fn spec_cscope(self) -> bool {
        self.cscope
    }

    /// Whether the ctags backend started and takes writes.
    pub closed spec fn spec_ctags(self) -> bool {
        self.ctags
    }

    /// Whether the sink has been shut down.
    pub closed spec fn spec_closed(self) -> bool {
        self.closed
    }

    /// Every line the sink has issued so far, in issue order.
    pub closed spec fn spec_written(self) -> Seq<Seq<char>> {
        self.written@
    }

    /// The sink only ever issues whole newline-terminated lines.
    pub open spec fn wf(self) -> bool {
        forall|i: int| 0 <= i < self.spec_written().len() ==> is_whole_line(
            #[trigger] self.spec_written()[i],
        )
    }

    /// Creates the sink given which backend processes could be started.
    ///
    /// One failed backend is tolerated and disabled; the sink is refused
    /// only when neither started.
    pub fn new(cscope_started: bool, ctags_started: bool) -> (r: Result<TagFileCreator, SinkError>)
        ensures
            r.is_ok() <==> (cscope_started || ctags_started),
            match r {
                Ok(t) => t.spec_cscope() == cscope_started && t.spec_ctags() == ctags_started
                    && !t.spec_closed() && t.spec_written() == Seq::<Seq<char>>::empty()
                    && t.wf(),
                Err(e) => e == SinkError::NoBackend,
            },
    {
        if !cscope_started && !ctags_started {
            Err(SinkError::NoBackend)
        } else {
            Ok(
                TagFileCreator {
                    cscope: cscope_started,
                    ctags: ctags_started,
                    closed: false,
                    written: Ghost(Seq::empty()),
                },
            )
        }
    }

    /// Whether the sink still accepts writes.
    pub fn is_open(&self) -> (r: bool)
        ensures
            r == !self.spec_closed(),
    {
        !self.closed
    }

    /// The write owed for one matched path: the path as a single
    /// newline-terminated line, destined for every enabled backend, and
    /// recorded in the sink's history as one whole line.
    pub fn writeln(&mut self, path: &str) -> (w: LineWrite)
        requires
            !old(self).spec_closed(),
        ensures
            w.line@ == path@ + "\n"@,
            w.to_cscope == old(self).spec_cscope(),
            w.to_ctags == old(self).spec_ctags(),
            final(self).spec_cscope() == old(self).spec_cscope(),
            final(self).spec_ctags() == old(self).spec_ctags(),
            final(self).spec_closed() == old(self).spec_closed(),
            final(self).spec_written() == old(self).spec_written().push(w.line@),
            old(self).wf() ==> final(self).wf(),
    {
        let mut line = path.to_owned();
        line.append("\n");
        proof {
            reveal_strlit("\n");
            assert(is_whole_line(line@));
            self.written@ = self.written@.push(line@);
        }
        LineWrite { line, to_cscope: self.cscope, to_ctags: self.ctags }
    }

    /// Shuts the sink down, exactly once: after this, no write is
    /// accepted.  The caller then flushes and closes each enabled
    /// backend's input and waits for the process to exit, swallowing its
    /// exit status.
    pub fn close(&mut self)
        requires
            !old(self).spec_closed(),
        ensures
            final(self).spec_closed(),
            final(self).spec_cscope() == old(self).spec_cscope(),
            final(self).spec_ctags() == old(self).spec_ctags(),
            final(self).spec_written() == old(self).spec_written(),
    {
        self.closed = true;
    }

    /// Whether a candidate ctags binary's help output shows an Exuberant
    /// variant, the only kind the indexer run accepts.
    pub fn ctags_help_ok(help: &str) -> (r: bool)
        ensures
            r == has_substr(help@, "Exuberant"@),
    {
        contains_substr(help, "Exuberant")
    }
}

} // verus!
