use kiss::entry::{generate_file_metadata, CacheEntry};
use kiss::index::{normalize_path_bytes, OptimizedCache, PathTrie};

fn entry(name: &str, body: &str) -> CacheEntry {
    generate_file_metadata(name, body.len() as u64, 1_000_000, body.as_bytes())
}

#[test]
fn hash_of_empty_path_is_the_offset_basis() {
    assert_eq!(PathTrie::normalize_path_hash(""), (2166136261, false));
}

#[test]
fn hash_matches_published_fnv1a_vectors() {
    assert_eq!(PathTrie::normalize_path_hash("a").0, 0xe40c292c);
    assert_eq!(PathTrie::normalize_path_hash("b").0, 0xe70c2de5);
    assert_eq!(PathTrie::normalize_path_hash("foobar").0, 0xbf9cf968);
    assert_eq!(normalize_path_bytes(b"foobar").0, 0xbf9cf968);
}

#[test]
fn hash_wraps_on_bytes_above_ascii() {
    assert_eq!(normalize_path_bytes(&[0xff]).0, (2166136261u32 ^ 0xff).wrapping_mul(16777619));
}

#[test]
fn query_is_not_part_of_the_key() {
    let plain = PathTrie::normalize_path_hash("/app.js");
    assert_eq!(PathTrie::normalize_path_hash("/app.js?v=3"), plain);
    assert_eq!(PathTrie::normalize_path_hash("/app.js?"), plain);
    assert_eq!(PathTrie::normalize_path_hash("/app.js?a=1?b=2"), plain);
    assert_ne!(PathTrie::normalize_path_hash("/app.js#v=3"), plain);
}

#[test]
fn one_trailing_slash_is_dropped_and_remembered() {
    let docs = PathTrie::normalize_path_hash("/docs").0;
    assert_eq!(PathTrie::normalize_path_hash("/docs"), (docs, false));
    assert_eq!(PathTrie::normalize_path_hash("/docs/"), (docs, true));
    assert_eq!(PathTrie::normalize_path_hash("/docs/?page=2"), (docs, true));
    let with_slash = (docs ^ 47).wrapping_mul(16777619);
    assert_eq!(PathTrie::normalize_path_hash("/docs//"), (with_slash, true));
}

#[test]
fn the_root_is_not_directory_style() {
    let root = PathTrie::normalize_path_hash("/");
    assert_eq!(root, ((2166136261u32 ^ 47).wrapping_mul(16777619), false));
    assert_eq!(PathTrie::normalize_path_hash("/?x=1"), root);
    assert_eq!(PathTrie::normalize_path_hash("?x=1"), (2166136261, false));
}

#[test]
fn new_index_is_empty() {
    let trie = PathTrie::new();
    assert_eq!(trie.entry_count(), 0);
    assert!(trie.get("/").is_none());
    assert!(trie.get("/index.html").is_none());
    assert!(trie.get("").is_none());
}

#[test]
fn stored_file_is_found_under_its_path() {
    let mut trie = PathTrie::new();
    let style = entry("style.css", "body {}");
    trie.insert("/css/style.css", style.clone());
    assert_eq!(trie.get("/css/style.css"), Some(&style));
    assert_eq!(trie.get("/css/style.css?v=1"), Some(&style));
    assert_eq!(trie.get("/css/style.css/"), Some(&style));
    assert!(trie.get("/css/style").is_none());
    assert!(trie.get("/css/").is_none());
    assert_eq!(trie.entry_count(), 1);
}

#[test]
fn index_file_answers_for_its_directory() {
    let mut trie = PathTrie::new();
    let page = entry("index.html", "<p>docs</p>");
    trie.insert("/docs/index.html", page.clone());
    assert_eq!(trie.get("/docs/index.html"), Some(&page));
    assert_eq!(trie.get("/docs/"), Some(&page));
    assert_eq!(trie.get("/docs/?lang=en"), Some(&page));
    assert!(trie.get("/docs").is_none());
    assert!(trie.get("/").is_none());
    assert_eq!(trie.entry_count(), 1);
}

#[test]
fn root_index_answers_for_the_root() {
    let mut trie = PathTrie::new();
    let home = entry("index.html", "<p>home</p>");
    trie.insert("/index.html", home.clone());
    assert_eq!(trie.get("/"), Some(&home));
    assert_eq!(trie.get("/"), trie.get("/index.html"));
    assert!(trie.get("").is_none());
}

#[test]
fn root_with_a_query_is_not_the_root() {
    let mut trie = PathTrie::new();
    trie.insert("/index.html", entry("index.html", "<p>home</p>"));
    assert!(trie.get("/?x=1").is_none());
}

#[test]
fn file_wins_over_index_alias() {
    let mut trie = PathTrie::new();
    let page = entry("index.html", "<p>docs</p>");
    let file = entry("docs", "a file named docs");
    trie.insert("/docs/index.html", page.clone());
    trie.insert("/docs", file.clone());
    assert_eq!(trie.get("/docs/"), Some(&file));
    assert_eq!(trie.get("/docs"), Some(&file));
    assert_eq!(trie.get("/docs/index.html"), Some(&page));
}

#[test]
fn later_file_replaces_earlier_under_the_same_path() {
    let mut trie = PathTrie::new();
    let first = entry("a.txt", "first");
    let second = entry("a.txt", "second, longer");
    trie.insert("/a.txt", first);
    trie.insert("/a.txt", second.clone());
    assert_eq!(trie.get("/a.txt"), Some(&second));
    assert_eq!(trie.entry_count(), 1);
}

#[test]
fn a_file_that_is_not_an_index_has_no_alias() {
    let mut trie = PathTrie::new();
    trie.insert("/docs/myindex.html", entry("myindex.html", "x"));
    trie.insert("/index.htm", entry("index.htm", "y"));
    assert!(trie.get("/docs/").is_none());
    assert!(trie.get("/").is_none());
    assert_eq!(trie.entry_count(), 2);
}

#[test]
fn cache_reads_what_was_published() {
    let mut trie = PathTrie::new();
    let home = entry("index.html", "<p>home</p>");
    let script = entry("app.js", "let x;");
    trie.insert("/index.html", home.clone());
    trie.insert("/app.js", script.clone());
    let cache = OptimizedCache::publish(trie);
    assert_eq!(cache.entry_count(), 2);
    assert_eq!(cache.get("/"), Some(&home));
    assert_eq!(cache.get("/app.js"), Some(&script));
    assert!(cache.get("/missing.js").is_none());
}

#[test]
fn cache_can_be_filled_directly() {
    let mut cache = OptimizedCache::new();
    assert_eq!(cache.entry_count(), 0);
    let script = entry("app.js", "let x;");
    cache.insert("/app.js", script.clone());
    assert_eq!(cache.entry_count(), 1);
    assert_eq!(cache.get("/app.js"), Some(&script));
}

#[test]
fn paths_with_one_key_share_one_slot() {
    assert_eq!(
        PathTrie::normalize_path_hash("/eajpezn").0,
        PathTrie::normalize_path_hash("/dvkzuwb").0
    );
    let mut trie = PathTrie::new();
    let first = entry("eajpezn", "first");
    let second = entry("dvkzuwb", "second");
    trie.insert("/eajpezn", first);
    trie.insert("/dvkzuwb", second.clone());
    assert_eq!(trie.entry_count(), 1);
    assert_eq!(trie.get("/dvkzuwb"), Some(&second));
    assert_eq!(trie.get("/eajpezn"), Some(&second));
}

#[test]
fn a_file_with_the_key_of_the_root_answers_for_the_root() {
    assert_eq!(PathTrie::normalize_path_hash("/daumzet").0, PathTrie::normalize_path_hash("/").0);
    let mut trie = PathTrie::new();
    let home = entry("index.html", "<p>home</p>");
    let other = entry("daumzet", "other");
    trie.insert("/index.html", home.clone());
    trie.insert("/daumzet", other.clone());
    assert_eq!(trie.get("/"), Some(&other));
    assert_eq!(trie.get("/index.html"), Some(&home));
}
