use rsmd::cache::ContentCache;
use rsmd::content::{fetch_content, finish_load, FetchOutcome};
use rsmd::directory::MarkdownFile;
use rsmd::paths::{sanitize_upload_filename, validate_upload_directory, CoreError};
use rsmd::upload::{commit_upload, prepare_upload, MAX_UPLOAD_SIZE};

#[test]
fn upload_filename_traversal_is_stripped_to_basename() {
    // Traversal via the filename is neutralized by taking the basename,
    // not rejected...
    assert_eq!(sanitize_upload_filename("../x.md"), Ok("x.md".to_string()));
    // ...while traversal in the directory header is a hard error.
    assert_eq!(
        validate_upload_directory("../outside"),
        Err(CoreError::InvalidPath)
    );
}

#[test]
fn upload_rejects_invalid_extension() {
    let body = vec![104u8, 105u8];
    let r = prepare_upload("", "notes.txt", &body);
    assert!(matches!(r, Err(CoreError::UnsupportedExtension)));
}

#[test]
fn upload_rejects_empty_body() {
    let body: Vec<u8> = Vec::new();
    let r = prepare_upload("", "notes.md", &body);
    assert!(matches!(r, Err(CoreError::EmptyBody)));
}

#[test]
fn upload_rejects_oversized_body() {
    let body = vec![97u8; MAX_UPLOAD_SIZE + 1];
    let r = prepare_upload("", "notes.md", &body);
    assert!(matches!(r, Err(CoreError::BodyTooLarge)));
}

#[test]
fn upload_rejects_empty_file_name() {
    let body = vec![104u8];
    let r = prepare_upload("", "", &body);
    assert!(matches!(r, Err(CoreError::InvalidFilename)));
}

#[test]
fn upload_rejects_invalid_directory_path() {
    let body = vec![104u8];
    let r = prepare_upload("a/../b", "notes.md", &body);
    assert!(matches!(r, Err(CoreError::InvalidPath)));
}

#[test]
fn upload_accepts_markdown_case_insensitively() {
    let body = vec![104u8];
    let plan = prepare_upload("docs", "Guide.MD", &body).unwrap();
    assert_eq!(plan.file_name, "Guide.MD");
    assert_eq!(plan.directory, "docs");
    assert_eq!(plan.logical_path, "docs/Guide.MD");
    let plan2 = prepare_upload("", "a.markdown", &body).unwrap();
    assert_eq!(plan2.logical_path, "a.markdown");
}

#[test]
fn upload_succeeds_and_updates_state() {
    let mut index = vec![MarkdownFile {
        name: "a.md".to_string(),
        path: "/root/a.md".to_string(),
    }];
    let mut cache = ContentCache::new();
    // A stale cached pair for the path about to be overwritten.
    cache.store(
        "docs/new.md".to_string(),
        "old raw".to_string(),
        "<p>old</p>".to_string(),
    );

    let body = vec![110u8, 101u8, 119u8];
    let plan = prepare_upload("docs", "new.md", &body).unwrap();
    assert_eq!(plan.logical_path, "docs/new.md");

    // The caller writes the body to disk here; only then does the commit run.
    commit_upload(
        &mut index,
        &mut cache,
        plan.logical_path.clone(),
        "/root/docs/new.md".to_string(),
    );

    assert_eq!(index.len(), 2);
    assert_eq!(index[0].name, "a.md");
    assert_eq!(index[1].name, "docs/new.md");
    assert_eq!(index[1].path, "/root/docs/new.md");

    // The stale entry is gone: the next read must load from disk.
    assert!(cache.get("docs/new.md").is_none());
}

#[test]
fn upload_then_read_returns_new_bytes() {
    // After a successful upload of logical path L with new bytes B, a read
    // of L misses the cache and hands back exactly B.
    let mut index: Vec<MarkdownFile> = Vec::new();
    let mut cache = ContentCache::new();
    cache.store(
        "l.md".to_string(),
        "stale".to_string(),
        "<p>stale</p>".to_string(),
    );

    let new_bytes = "# fresh contents";
    let plan = prepare_upload("", "l.md", new_bytes.as_bytes()).unwrap();
    commit_upload(
        &mut index,
        &mut cache,
        plan.logical_path.clone(),
        "/root/l.md".to_string(),
    );

    // The read path: the index knows the path, the cache does not.
    match fetch_content(&index, &cache, "l.md") {
        FetchOutcome::NeedsLoad { physical } => {
            assert_eq!(physical, "/root/l.md");
            // The disk read returns what the upload wrote.
            let (raw, rendered) = finish_load(&mut cache, "l.md", new_bytes.to_string());
            assert_eq!(raw, new_bytes);
            assert!(rendered.contains("<h1>"));
        }
        _ => panic!("expected a cache miss on the freshly uploaded path"),
    }

    // The pair is now cached.
    let (raw, _) = cache.get("l.md").unwrap();
    assert_eq!(raw, new_bytes);
}
