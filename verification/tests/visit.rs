use actix_app_api::visit::{DirWalker, ListedEntry};

fn entry(name: &str, is_dir: bool) -> ListedEntry<String, String> {
    ListedEntry { entry: format!("entry:{name}"), path: format!("/root/{name}"), is_dir }
}

#[test]
fn walk_starts_at_root_and_ends_when_empty() {
    let mut w = DirWalker::new("/root".to_string());
    assert_eq!(w.next_dir(), Some("/root".to_string()));
    assert_eq!(w.next_dir(), None);
    assert_eq!(w.next_dir(), None);
}

#[test]
fn listing_splits_files_and_dirs_in_order() {
    let mut w = DirWalker::new("/root".to_string());
    let _ = w.next_dir();
    let files = w.record_listing(vec![
        entry("a", false),
        entry("d1", true),
        entry("b", false),
        entry("d2", true),
    ]);
    assert_eq!(files, vec!["entry:a".to_string(), "entry:b".to_string()]);
    // Directories come back last found, first listed.
    assert_eq!(w.next_dir(), Some("/root/d2".to_string()));
    assert_eq!(w.next_dir(), Some("/root/d1".to_string()));
    assert_eq!(w.next_dir(), None);
}

#[test]
fn empty_listing_changes_nothing() {
    let mut w = DirWalker::new("/x".to_string());
    let files: Vec<String> = w.record_listing(Vec::new());
    assert!(files.is_empty());
    assert_eq!(w.next_dir(), Some("/x".to_string()));
}

#[test]
fn recorded_dir_is_taken_next() {
    let mut w = DirWalker::new(1u32);
    let files: Vec<u32> = w.record_listing(vec![ListedEntry { entry: 2, path: 2, is_dir: true }]);
    assert!(files.is_empty());
    assert_eq!(w.next_dir(), Some(2));
    assert_eq!(w.next_dir(), Some(1));
    assert_eq!(w.next_dir(), None);
}

#[test]
fn every_entry_lands_once() {
    let mut w = DirWalker::new(0usize);
    let entries: Vec<ListedEntry<usize, usize>> = (1..=9)
        .map(|i| ListedEntry { entry: i, path: i, is_dir: i % 3 == 0 })
        .collect();
    let _ = w.next_dir();
    let files = w.record_listing(entries);
    assert_eq!(files, vec![1, 2, 4, 5, 7, 8]);
    let mut dirs = Vec::new();
    while let Some(d) = w.next_dir() {
        dirs.push(d);
    }
    assert_eq!(dirs, vec![9, 6, 3]);
    assert_eq!(files.len() + dirs.len(), 9);
}

/// A small tree: each directory maps to its listing.
fn listing_of(dir: &str) -> Vec<ListedEntry<String, String>> {
    let node = |name: &str, is_dir: bool| ListedEntry {
        entry: name.to_string(),
        path: name.to_string(),
        is_dir,
    };
    match dir {
        "/" => vec![node("/a", false), node("/d", true), node("/b", false), node("/e", true)],
        "/d" => vec![node("/d/x", false), node("/d/f", true)],
        "/d/f" => vec![node("/d/f/y", false)],
        "/e" => vec![node("/e/z", false), node("/e/w", false)],
        _ => Vec::new(),
    }
}

#[test]
fn whole_walk_yields_every_file_once() {
    let mut w = DirWalker::new("/".to_string());
    let mut yielded = Vec::new();
    let mut steps = 0;
    while let Some(dir) = w.next_dir() {
        steps += 1;
        yielded.extend(w.record_listing(listing_of(&dir)));
    }
    // One step per directory, files in walk order (last listed subdirectory first).
    assert_eq!(steps, 4);
    assert_eq!(yielded, vec!["/a", "/b", "/e/z", "/e/w", "/d/x", "/d/f/y"]);
    let mut sorted = yielded.clone();
    sorted.sort();
    sorted.dedup();
    assert_eq!(sorted.len(), yielded.len());
}

#[test]
fn failed_listing_keeps_dirs_and_yields_only_the_error() {
    let mut w = DirWalker::new("/root".to_string());
    let _ = w.next_dir();
    let res: Result<Vec<String>, &str> =
        w.finish_listing(vec![entry("a", false), entry("d", true)], Some("boom"));
    assert_eq!(res, Err("boom"));
    assert_eq!(w.next_dir(), Some("/root/d".to_string()));
    assert_eq!(w.next_dir(), None);
}

#[test]
fn finished_listing_yields_files() {
    let mut w = DirWalker::new("/root".to_string());
    let _ = w.next_dir();
    let res: Result<Vec<String>, &str> =
        w.finish_listing(vec![entry("a", false), entry("d", true), entry("b", false)], None);
    assert_eq!(res, Ok(vec!["entry:a".to_string(), "entry:b".to_string()]));
    assert_eq!(w.next_dir(), Some("/root/d".to_string()));
}
