//! The sink lifecycle, line framing, and the run options.

use scope_rs::SinkError;
use scope_rs::TagFileCreator;
use scope_rs::make_excludes;
use scope_rs::parse_jobs;

#[test]
fn sink_needs_at_least_one_backend() {
    match TagFileCreator::new(false, false) {
        Err(e) => {
            assert!(matches!(e, SinkError::NoBackend));
            assert_eq!(e.message(), "Cannot create any tag file database.");
        }
        Ok(_) => panic!("a sink without backends must be refused"),
    }
    assert!(TagFileCreator::new(true, false).is_ok());
    assert!(TagFileCreator::new(false, true).is_ok());
    assert!(TagFileCreator::new(true, true).is_ok());
}

/// Each write is one newline-terminated line, destined to every enabled
/// backend and only those: the atomic unit concurrent writers serialize.
#[test]
fn writeln_frames_one_line_per_enabled_backend() {
    let mut sink = TagFileCreator::new(true, false).unwrap();
    let w = sink.writeln("src/lib.rs");
    assert_eq!(w.line, "src/lib.rs\n");
    assert!(w.to_cscope);
    assert!(!w.to_ctags);

    let mut sink = TagFileCreator::new(true, true).unwrap();
    let w = sink.writeln("a b/c d.c");
    assert_eq!(w.line, "a b/c d.c\n");
    assert!(w.to_cscope && w.to_ctags);
}

/// The sink is closed exactly once, after all writes; the library
/// refuses to frame a write for a closed sink, so the embedding program
/// checks before writing, as the shutdown protocol demands.
#[test]
fn close_transitions_the_sink() {
    let mut sink = TagFileCreator::new(true, true).unwrap();
    assert!(sink.is_open());
    let _ = sink.writeln("before/close.c");
    sink.close();
    // After close the contract forbids writeln, and callers can see it.
    assert!(!sink.is_open());
}

#[test]
fn ctags_candidates_must_be_exuberant() {
    assert!(TagFileCreator::ctags_help_ok(
        "Exuberant Ctags 5.8, Copyright (C) 1996-2009 Darren Hiebert"
    ));
    assert!(!TagFileCreator::ctags_help_ok("Universal Ctags 6.0"));
    assert!(!TagFileCreator::ctags_help_ok(""));
}

#[test]
fn default_excludes_are_appended() {
    let merged = make_excludes(None);
    assert_eq!(merged, vec!["/.git/", "/.svn/", "/CVS/"]);

    let merged = make_excludes(Some(vec!["target".to_string(), "build".to_string()]));
    assert_eq!(merged, vec!["target", "build", "/.git/", "/.svn/", "/CVS/"]);
}

#[test]
fn jobs_parsing_accepts_positive_numbers() {
    assert_eq!(parse_jobs("1"), Some(1));
    assert_eq!(parse_jobs("8"), Some(8));
    assert_eq!(parse_jobs("+8"), Some(8));
    assert_eq!(parse_jobs("0042"), Some(42));
}

#[test]
fn jobs_parsing_rejects_everything_else() {
    assert_eq!(parse_jobs(""), None);
    assert_eq!(parse_jobs("0"), None);
    assert_eq!(parse_jobs("+"), None);
    assert_eq!(parse_jobs("-1"), None);
    assert_eq!(parse_jobs("eight"), None);
    assert_eq!(parse_jobs("8 "), None);
    assert_eq!(parse_jobs("4.5"), None);
    // One past the largest machine-size value overflows and is refused.
    assert_eq!(parse_jobs("18446744073709551616"), None);
    assert_eq!(parse_jobs(&usize::MAX.to_string()), Some(usize::MAX));
}
