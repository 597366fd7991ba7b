//! End-to-end scenarios for the indexing pipeline, driven single-threaded
//! through the library's walk/classify/sink protocol.

use std::collections::HashMap;

use scope_rs::Classification;
use scope_rs::DriverList;
use scope_rs::FileCrawler;
use scope_rs::PathKind;
use scope_rs::TagFileCreator;
use scope_rs::VisitAction;
use scope_rs::make_excludes;

/// A tiny in-memory tree: path -> Some(children) for a directory,
/// None for a plain file; absent paths are missing.
struct FakeFs {
    entries: HashMap<String, Option<Vec<String>>>,
}

impl FakeFs {
    fn kind(&self, path: &str) -> PathKind {
        match self.entries.get(path) {
            None => PathKind::Missing,
            Some(None) => PathKind::File,
            Some(Some(_)) => PathKind::Directory,
        }
    }

    fn children(&self, path: &str) -> Vec<String> {
        match self.entries.get(path) {
            Some(Some(c)) => c.clone(),
            _ => Vec::new(),
        }
    }
}

/// Walks the fake tree and returns every visited path in order, and the
/// subset that was enqueued for classification.
fn walk(fs: &FakeFs, roots: Vec<String>, excludes: Vec<String>) -> (Vec<String>, Vec<String>) {
    let mut crawler = FileCrawler::new(roots, excludes);
    let mut visited = Vec::new();
    let mut queued = Vec::new();
    while let Some(path) = crawler.run() {
        let kind = fs.kind(&path);
        visited.push(path.clone());
        match crawler.visit(&path, kind) {
            VisitAction::Skip => {}
            VisitAction::Enqueue => queued.push(path),
            VisitAction::EnqueueAndDescend => {
                let children = fs.children(&path);
                queued.push(path);
                crawler.push_children(children);
            }
        }
    }
    (visited, queued)
}

fn scenario_fs() -> FakeFs {
    let mut entries = HashMap::new();
    entries.insert(
        "root".to_string(),
        Some(vec![
            "root/a.c".to_string(),
            "root/notes.txt".to_string(),
            "root/.git".to_string(),
        ]),
    );
    entries.insert("root/a.c".to_string(), None);
    entries.insert("root/notes.txt".to_string(), None);
    entries.insert(
        "root/.git".to_string(),
        Some(vec!["root/.git/config".to_string()]),
    );
    entries.insert("root/.git/config".to_string(), None);
    FakeFs { entries }
}

/// A run with the default excludes never visits anything under the
/// version-control directory, and matches exactly the one source file.
#[test]
fn scenario_default_excludes_matches_only_source() {
    let fs = scenario_fs();
    let excludes = make_excludes(None);
    let (visited, queued) = walk(&fs, vec!["root".to_string()], excludes);

    assert!(!visited.iter().any(|p| p.contains("/.git/")));
    assert!(!queued.iter().any(|p| p.contains("/.git/")));
    assert!(!visited.contains(&"root/.git/config".to_string()));

    // Classify the queue as the workers would: the probe reports a plain
    // type for the notes file and fails for directories.
    let driver = DriverList::new(None, false, &vec![true, true]);
    let mut matched = Vec::new();
    for path in &queued {
        let classification = if driver.by_extension(path) {
            Classification::IncludeByExtension
        } else {
            let probe = match fs.kind(path) {
                PathKind::File => Some("text/plain"),
                _ => None,
            };
            driver.classify(path, probe)
        };
        match classification {
            Classification::IncludeByExtension | Classification::IncludeByMime(_) => {
                matched.push(path.clone())
            }
            _ => {}
        }
    }
    assert_eq!(matched, vec!["root/a.c".to_string()]);
}

/// An excluded directory is a subtree cut: its descendants are not even
/// visited, and a path that matches an exclude fragment is itself skipped.
#[test]
fn exclusion_cuts_subtree_not_just_output() {
    let mut entries = HashMap::new();
    entries.insert(
        "top".to_string(),
        Some(vec!["top/skipme".to_string(), "top/b.c".to_string()]),
    );
    entries.insert(
        "top/skipme".to_string(),
        Some(vec!["top/skipme/deep.c".to_string()]),
    );
    entries.insert("top/skipme/deep.c".to_string(), None);
    entries.insert("top/b.c".to_string(), None);
    let fs = FakeFs { entries };

    let (visited, queued) = walk(
        &fs,
        vec!["top".to_string()],
        vec!["skipme".to_string()],
    );
    assert_eq!(visited, vec!["top".to_string(), "top/b.c".to_string()]);
    assert_eq!(queued, vec!["top".to_string(), "top/b.c".to_string()]);
}

/// Exclusion is literal substring containment on the rendering, not
/// path-segment matching.
#[test]
fn exclusion_is_literal_substring() {
    let mut entries = HashMap::new();
    entries.insert("mygitrepo".to_string(), Some(vec![]));
    let fs = FakeFs { entries };
    let (visited, _) = walk(
        &fs,
        vec!["mygitrepo".to_string()],
        vec!["git".to_string()],
    );
    assert!(visited.is_empty());
}

/// The walk is depth-first: a directory's children come before its
/// pending siblings.
#[test]
fn walk_is_depth_first() {
    let mut entries = HashMap::new();
    entries.insert(
        "r".to_string(),
        Some(vec!["r/a".to_string(), "r/b.c".to_string()]),
    );
    entries.insert("r/a".to_string(), Some(vec!["r/a/x.c".to_string()]));
    entries.insert("r/a/x.c".to_string(), None);
    entries.insert("r/b.c".to_string(), None);
    let fs = FakeFs { entries };
    let (visited, _) = walk(&fs, vec!["r".to_string()], vec![]);
    assert_eq!(
        visited,
        vec![
            "r".to_string(),
            "r/a".to_string(),
            "r/a/x.c".to_string(),
            "r/b.c".to_string(),
        ]
    );
}

/// A missing path is skipped silently; siblings are still visited.
#[test]
fn missing_path_is_skipped() {
    let mut entries = HashMap::new();
    entries.insert(
        "r".to_string(),
        Some(vec!["r/gone".to_string(), "r/here.c".to_string()]),
    );
    entries.insert("r/here.c".to_string(), None);
    let fs = FakeFs { entries };
    let (_, queued) = walk(&fs, vec!["r".to_string()], vec![]);
    assert_eq!(queued, vec!["r".to_string(), "r/here.c".to_string()]);
}

/// A large balanced run: half the files match by extension, half are
/// excluded by their reported type; the sink receives exactly the matched
/// count, no duplicates, no drops.
#[test]
fn thousand_files_split_evenly() {
    let mut entries = HashMap::new();
    let mut children = Vec::new();
    for i in 0..500 {
        let inc = format!("gen/f{}.c", i);
        let exc = format!("gen/g{}.bin", i);
        entries.insert(inc.clone(), None);
        entries.insert(exc.clone(), None);
        children.push(inc);
        children.push(exc);
    }
    entries.insert("gen".to_string(), Some(children));
    let fs = FakeFs { entries };

    let (_, queued) = walk(&fs, vec!["gen".to_string()], make_excludes(None));
    assert_eq!(queued.len(), 1001);

    let driver = DriverList::new(None, false, &vec![true, true]);
    let mut sink = TagFileCreator::new(true, true).unwrap();
    let mut lines = Vec::new();
    for path in &queued {
        let classification = if driver.by_extension(path) {
            Classification::IncludeByExtension
        } else {
            let probe = match fs.kind(path) {
                PathKind::File => Some("application/octet-stream"),
                _ => None,
            };
            driver.classify(path, probe)
        };
        match classification {
            Classification::IncludeByExtension | Classification::IncludeByMime(_) => {
                let w = sink.writeln(path);
                assert!(w.to_cscope && w.to_ctags);
                lines.push(w.line);
            }
            _ => {}
        }
    }
    assert_eq!(lines.len(), 500);
    let mut unique = lines.clone();
    unique.sort();
    unique.dedup();
    assert_eq!(unique.len(), 500);
    for line in &lines {
        assert!(line.ends_with(".c\n"));
    }
}
