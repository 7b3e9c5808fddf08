use watcher_server::assets::AssetList;

fn scan(entries: &[(u64, &str)]) -> Vec<(u64, String)> {
    entries.iter().map(|(c, n)| (*c, n.to_string())).collect()
}

fn pairs(list: &AssetList) -> Vec<(u64, String)> {
    list.listing("h").into_iter().map(|e| (e.created, e.filename)).collect()
}

#[test]
fn new_list_is_empty() {
    let l = AssetList::new();
    assert_eq!(l.len(), 0);
    assert!(l.listing("host").is_empty());
}

#[test]
fn sync_sorts_by_creation_time() {
    let mut l = AssetList::new();
    l.sync(&scan(&[(30, "c.png"), (10, "a.png"), (20, "b.png")]));
    assert_eq!(pairs(&l), scan(&[(10, "a.png"), (20, "b.png"), (30, "c.png")]));
}

#[test]
fn sync_keeps_first_entry_per_creation_time() {
    let mut l = AssetList::new();
    l.sync(&scan(&[(5, "first"), (5, "second")]));
    assert_eq!(pairs(&l), scan(&[(5, "first")]));
    l.sync(&scan(&[(5, "third"), (1, "zero")]));
    assert_eq!(pairs(&l), scan(&[(1, "zero"), (5, "first")]));
}

#[test]
fn rescan_changes_nothing() {
    let mut l = AssetList::new();
    let s = scan(&[(3, "x"), (1, "y"), (2, "z")]);
    l.sync(&s);
    let once = pairs(&l);
    l.sync(&s);
    assert_eq!(pairs(&l), once);
}

#[test]
fn same_file_name_with_other_time_is_kept() {
    let mut l = AssetList::new();
    l.sync(&scan(&[(1, "a"), (2, "a")]));
    assert_eq!(l.len(), 2);
}

#[test]
fn lookups() {
    let mut l = AssetList::new();
    l.sync(&scan(&[(7, "logo.svg")]));
    assert!(l.contains_filename(&"logo.svg".to_string()));
    assert!(!l.contains_filename(&"logo.png".to_string()));
}

#[test]
fn listing_builds_urls() {
    let mut l = AssetList::new();
    l.sync(&scan(&[(2, "b.txt"), (1, "a.txt")]));
    let entries = l.listing("example.com:8000");
    assert_eq!(entries.len(), 2);
    assert_eq!(entries[0].created, 1);
    assert_eq!(entries[0].filename, "a.txt");
    assert_eq!(entries[0].url, "https://example.com:8000/a.txt");
    assert_eq!(entries[1].url, "https://example.com:8000/b.txt");
}
