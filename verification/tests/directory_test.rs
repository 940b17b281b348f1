use rsmd::directory::{index_from_entries, list_directory_contents, upsert, MarkdownFile};

#[test]
fn test_list_directory_contents_root() {
    let files = vec![
        MarkdownFile {
            name: "readme.md".to_string(),
            path: "/test/readme.md".to_string(),
        },
        MarkdownFile {
            name: "docs/api.md".to_string(),
            path: "/test/docs/api.md".to_string(),
        },
        MarkdownFile {
            name: "docs/guide.md".to_string(),
            path: "/test/docs/guide.md".to_string(),
        },
    ];

    let listing = list_directory_contents(&files, "");

    assert_eq!(listing.current_path, "");
    assert_eq!(listing.parent, None);
    assert_eq!(listing.directories.len(), 1);
    assert_eq!(listing.directories[0].name, "docs");
    assert_eq!(listing.directories[0].path, "docs");
    assert_eq!(listing.files.len(), 1);
    assert_eq!(listing.files[0].name, "readme.md");
}

#[test]
fn test_list_directory_contents_nested() {
    let files = vec![
        MarkdownFile {
            name: "docs/api.md".to_string(),
            path: "/test/docs/api.md".to_string(),
        },
        MarkdownFile {
            name: "docs/guide.md".to_string(),
            path: "/test/docs/guide.md".to_string(),
        },
        MarkdownFile {
            name: "docs/advanced/handbook.md".to_string(),
            path: "/test/docs/advanced/handbook.md".to_string(),
        },
        MarkdownFile {
            name: "readme.md".to_string(),
            path: "/test/readme.md".to_string(),
        },
    ];

    let listing = list_directory_contents(&files, "docs");

    assert_eq!(listing.current_path, "docs");
    assert_eq!(listing.parent, Some("".to_string()));
    assert_eq!(listing.directories.len(), 1);
    assert_eq!(listing.directories[0].name, "advanced");
    assert_eq!(listing.directories[0].path, "docs/advanced");
    assert_eq!(listing.files.len(), 2);
    assert!(listing.files.iter().any(|f| f.name == "docs/api.md"));
    assert!(listing.files.iter().any(|f| f.name == "docs/guide.md"));
}

#[test]
fn test_list_directory_contents_deep_nested() {
    let files = vec![
        MarkdownFile {
            name: "docs/api/v1/endpoints.md".to_string(),
            path: "/test/docs/api/v1/endpoints.md".to_string(),
        },
        MarkdownFile {
            name: "docs/api/v2/endpoints.md".to_string(),
            path: "/test/docs/api/v2/endpoints.md".to_string(),
        },
    ];

    let listing = list_directory_contents(&files, "docs/api");

    assert_eq!(listing.current_path, "docs/api");
    assert_eq!(listing.parent, Some("docs".to_string()));
    assert_eq!(listing.directories.len(), 2);
    assert!(listing.directories.iter().any(|d| d.name == "v1"));
    assert!(listing.directories.iter().any(|d| d.name == "v2"));
    assert_eq!(listing.files.len(), 0);
}

#[test]
fn test_list_directory_contents_empty_path() {
    let files = vec![MarkdownFile {
        name: "docs/nested/deep/file.md".to_string(),
        path: "/test/docs/nested/deep/file.md".to_string(),
    }];

    let listing = list_directory_contents(&files, "");

    assert_eq!(listing.directories.len(), 1);
    assert_eq!(listing.directories[0].name, "docs");
    assert_eq!(listing.files.len(), 0);
}

#[test]
fn test_list_directory_contents_sorted() {
    let files = vec![
        MarkdownFile {
            name: "z.md".to_string(),
            path: "/test/z.md".to_string(),
        },
        MarkdownFile {
            name: "a.md".to_string(),
            path: "/test/a.md".to_string(),
        },
        MarkdownFile {
            name: "m.md".to_string(),
            path: "/test/m.md".to_string(),
        },
    ];

    let listing = list_directory_contents(&files, "");

    // Files should be sorted alphabetically
    assert_eq!(listing.files[0].name, "a.md");
    assert_eq!(listing.files[1].name, "m.md");
    assert_eq!(listing.files[2].name, "z.md");
}

#[test]
fn test_index_from_entries_filters_and_sorts() {
    let entries = vec![
        MarkdownFile {
            name: "z.md".to_string(),
            path: "/r/z.md".to_string(),
        },
        MarkdownFile {
            name: "notes.txt".to_string(),
            path: "/r/notes.txt".to_string(),
        },
        MarkdownFile {
            name: "a.MD".to_string(),
            path: "/r/a.MD".to_string(),
        },
        MarkdownFile {
            name: "docs\\b.md".to_string(),
            path: "/r/docs/b.md".to_string(),
        },
        MarkdownFile {
            name: ".md".to_string(),
            path: "/r/.md".to_string(),
        },
        MarkdownFile {
            name: "a.md".to_string(),
            path: "/r/a.md".to_string(),
        },
    ];
    let index = index_from_entries(entries);
    // Exactly the three eligible documents, sorted, separators normalized:
    // the extension must be exactly `md`, and a bare `.md` has no extension.
    assert_eq!(index.len(), 3);
    assert_eq!(index[0].name, "a.md");
    assert_eq!(index[1].name, "docs/b.md");
    assert_eq!(index[2].name, "z.md");
    assert_eq!(index[1].path, "/r/docs/b.md");
}

#[test]
fn test_upsert_inserts_sorted_and_replaces() {
    let mut index: Vec<MarkdownFile> = Vec::new();
    upsert(&mut index, "m.md".to_string(), "/r/m.md".to_string());
    upsert(&mut index, "a.md".to_string(), "/r/a.md".to_string());
    upsert(&mut index, "z.md".to_string(), "/r/z.md".to_string());
    assert_eq!(index.len(), 3);
    assert_eq!(index[0].name, "a.md");
    assert_eq!(index[1].name, "m.md");
    assert_eq!(index[2].name, "z.md");

    // Replacing keeps the set of names; repeating the same upsert changes
    // nothing further.
    upsert(&mut index, "m.md".to_string(), "/elsewhere/m.md".to_string());
    upsert(&mut index, "m.md".to_string(), "/elsewhere/m.md".to_string());
    assert_eq!(index.len(), 3);
    assert_eq!(index[1].name, "m.md");
    assert_eq!(index[1].path, "/elsewhere/m.md");
}
