use rsmd::cache::ContentCache;
use rsmd::content::{fetch_content, path_exists, FetchOutcome};
use rsmd::directory::{list_directory_contents, MarkdownFile};
use rsmd::paths::{validate_navigation_segment_list, CoreError};

#[test]
fn navigation_rejects_every_traversal_form() {
    assert_eq!(
        validate_navigation_segment_list("../etc"),
        Err(CoreError::InvalidPath)
    );
    assert_eq!(
        validate_navigation_segment_list("a/../b"),
        Err(CoreError::InvalidPath)
    );
    assert_eq!(
        validate_navigation_segment_list(".."),
        Err(CoreError::InvalidPath)
    );
    assert_eq!(
        validate_navigation_segment_list("a/x..y/b"),
        Err(CoreError::InvalidPath)
    );
}

#[test]
fn navigation_normalizes_accepted_paths() {
    assert_eq!(
        validate_navigation_segment_list("/docs//guides/"),
        Ok("docs/guides".to_string())
    );
    assert_eq!(validate_navigation_segment_list(""), Ok("".to_string()));
    assert_eq!(
        validate_navigation_segment_list("a/b"),
        Ok("a/b".to_string())
    );
}

#[test]
fn listing_scenario_root_and_docs() {
    // Root contains a.md and docs/b.md.
    let files = vec![
        MarkdownFile {
            name: "a.md".to_string(),
            path: "/root/a.md".to_string(),
        },
        MarkdownFile {
            name: "docs/b.md".to_string(),
            path: "/root/docs/b.md".to_string(),
        },
    ];

    let at_root = list_directory_contents(&files, "");
    assert_eq!(at_root.directories.len(), 1);
    assert_eq!(at_root.directories[0].name, "docs");
    assert_eq!(at_root.directories[0].path, "docs");
    assert_eq!(at_root.files.len(), 1);
    assert_eq!(at_root.files[0].name, "a.md");

    let at_docs = list_directory_contents(&files, "docs");
    assert_eq!(at_docs.parent, Some("".to_string()));
    assert_eq!(at_docs.files.len(), 1);
    assert_eq!(at_docs.files[0].name, "docs/b.md");
    assert_eq!(at_docs.directories.len(), 0);
}

#[test]
fn listing_files_partition_the_index() {
    // Every document shows up under exactly one directory.
    let files = vec![
        MarkdownFile {
            name: "a.md".to_string(),
            path: "a".to_string(),
        },
        MarkdownFile {
            name: "docs/b.md".to_string(),
            path: "b".to_string(),
        },
        MarkdownFile {
            name: "docs/deep/c.md".to_string(),
            path: "c".to_string(),
        },
    ];
    let paths = ["", "docs", "docs/deep"];
    let mut seen: Vec<String> = Vec::new();
    for p in paths.iter() {
        let listing = list_directory_contents(&files, p);
        for f in listing.files.iter() {
            assert!(!seen.contains(&f.name), "file listed twice: {}", f.name);
            seen.push(f.name.clone());
        }
    }
    assert_eq!(seen.len(), files.len());
}

#[test]
fn cache_store_get_invalidate() {
    let mut cache = ContentCache::new();
    assert!(cache.get("x.md").is_none());

    cache.store("x.md".to_string(), "raw".to_string(), "<p>raw</p>".to_string());
    let (raw, rendered) = cache.get("x.md").unwrap();
    assert_eq!(raw, "raw");
    assert_eq!(rendered, "<p>raw</p>");

    // Overwriting replaces the pair.
    cache.store("x.md".to_string(), "raw2".to_string(), "<p>raw2</p>".to_string());
    let (raw2, _) = cache.get("x.md").unwrap();
    assert_eq!(raw2, "raw2");

    cache.invalidate("x.md");
    assert!(cache.get("x.md").is_none());
    // Removing an absent entry is a no-op.
    cache.invalidate("x.md");
    assert!(cache.get("x.md").is_none());
}

#[test]
fn fetch_content_not_found_for_unknown_path() {
    let files = vec![MarkdownFile {
        name: "a.md".to_string(),
        path: "/r/a.md".to_string(),
    }];
    let cache = ContentCache::new();
    assert!(matches!(
        fetch_content(&files, &cache, "missing.md"),
        FetchOutcome::NotFound
    ));
}

#[test]
fn fetch_content_uses_cache_on_hit() {
    let files = vec![MarkdownFile {
        name: "a.md".to_string(),
        path: "/r/a.md".to_string(),
    }];
    let mut cache = ContentCache::new();
    cache.store("a.md".to_string(), "raw".to_string(), "<p>raw</p>".to_string());
    match fetch_content(&files, &cache, "a.md") {
        FetchOutcome::Cached { raw, rendered } => {
            assert_eq!(raw, "raw");
            assert_eq!(rendered, "<p>raw</p>");
        }
        _ => panic!("expected the cached pair"),
    }
}

#[test]
fn path_exists_checks_prefixes() {
    let files = vec![MarkdownFile {
        name: "docs/deep/c.md".to_string(),
        path: "c".to_string(),
    }];
    assert!(path_exists(&files, ""));
    assert!(path_exists(&files, "docs"));
    assert!(path_exists(&files, "docs/deep"));
    assert!(!path_exists(&files, "doc"));
    assert!(!path_exists(&files, "docs/other"));
}
