//! English user-facing strings.

use vstd::prelude::*;

verus! {

/// The English text table: unknown keys give the empty string.
pub open spec fn spec_get_text(key: Seq<char>) -> Seq<char> {
    if key == "title_viewer"@ {
        "Markdown Viewer"@
    } else if key == "title_raw"@ {
        "Raw Markdown"@
    } else if key == "title_directory"@ {
        "Markdown Directory"@
    } else if key == "directory_label"@ {
        "Markdown Files"@
    } else if key == "directory_path"@ {
        "Directory"@
    } else if key == "no_files"@ {
        "No markdown files found in this directory."@
    } else if key == "error_invalid_mode"@ {
        "Error: Invalid mode"@
    } else if key == "error_not_found"@ {
        "404 - File not found"@
    } else if key == "error_reading_file"@ {
        "Error reading file"@
    } else if key == "upload_title"@ {
        "Add markdown file"@
    } else if key == "upload_instructions"@ {
        "Drag & drop a markdown file here or click to browse."@
    } else if key == "upload_browse"@ {
        "Browse file"@
    } else if key == "upload_success"@ {
        "Upload complete! Loading file..."@
    } else if key == "upload_error"@ {
        "Failed to upload file."@
    } else if key == "upload_invalid_type"@ {
        "Only markdown (.md) files are supported."@
    } else if key == "upload_uploading"@ {
        "Uploading…"@
    } else {
        ""@
    }
}

/// Look a key up in the English text table.
pub fn get_text(key: &str) -> (r: &'static str)
    ensures
        r@ == spec_get_text(key@),
{
    if crate::strings::str_eq(key, "title_viewer") {
        "Markdown Viewer"
    } else if crate::strings::str_eq(key, "title_raw") {
        "Raw Markdown"
    } else if crate::strings::str_eq(key, "title_directory") {
        "Markdown Directory"
    } else if crate::strings::str_eq(key, "directory_label") {
        "Markdown Files"
    } else if crate::strings::str_eq(key, "directory_path") {
        "Directory"
    } else if crate::strings::str_eq(key, "no_files") {
        "No markdown files found in this directory."
    } else if crate::strings::str_eq(key, "error_invalid_mode") {
        "Error: Invalid mode"
    } else if crate::strings::str_eq(key, "error_not_found") {
        "404 - File not found"
    } else if crate::strings::str_eq(key, "error_reading_file") {
        "Error reading file"
    } else if crate::strings::str_eq(key, "upload_title") {
        "Add markdown file"
    } else if crate::strings::str_eq(key, "upload_instructions") {
        "Drag & drop a markdown file here or click to browse."
    } else if crate::strings::str_eq(key, "upload_browse") {
        "Browse file"
    } else if crate::strings::str_eq(key, "upload_success") {
        "Upload complete! Loading file..."
    } else if crate::strings::str_eq(key, "upload_error") {
        "Failed to upload file."
    } else if crate::strings::str_eq(key, "upload_invalid_type") {
        "Only markdown (.md) files are supported."
    } else if crate::strings::str_eq(key, "upload_uploading") {
        "Uploading…"
    } else {
        ""
    }
}

} // verus!
