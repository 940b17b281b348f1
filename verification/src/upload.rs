//! The upload pipeline: every gate runs before any filesystem mutation, and
//! the index and cache change only after a successful write.
//!
//! The pipeline has two halves. `prepare_upload` runs the gates on plain
//! values and, when they all pass, yields the sanitized filename, the
//! normalized directory and the logical path; the caller then creates
//! directories and writes the body on disk. Only after that write succeeds
//! does `commit_upload` upsert the index and evict the stale cache entry, so
//! no partial mutation is ever visible on a failure path.

use vstd::prelude::*;

use crate::cache::{CacheEntryView, ContentCache};
use crate::directory::{index_sorted, upsert, upsert_post, MarkdownFile};
use crate::paths::{
    file_components, has_md_extension, has_traversal, normalized, sanitize_upload_filename,
    validate_upload_directory, CoreError,
};
use crate::strings::norm_slashes;

verus! {

/// The largest body an upload may carry, in bytes.
pub const MAX_UPLOAD_SIZE: usize = 10 * 1024 * 1024;

/// What a validated upload will do: the sanitized filename, the normalized
/// directory (empty for the root), and the logical path the document will be
/// known under.
pub struct UploadPlan {
    pub file_name: String,
    pub directory: String,
    pub logical_path: String,
}

/// The logical path of a filename placed in a directory.
pub open spec fn logical_path_of(dir: Seq<char>, name: Seq<char>) -> Seq<char> {
    if dir.len() == 0 {
        name
    } else {
        dir + seq!['/'] + name
    }
}

/// The filename gate fails: no final component is left, or it is `..`.
pub open spec fn upload_bad_filename(filename_raw: Seq<char>) -> bool {
    file_components(filename_raw).len() == 0 || file_components(filename_raw).last() == seq![
        '.',
        '.',
    ]
}

/// The extension gate fails: a final component is left but it carries no
/// markdown extension.
pub open spec fn upload_bad_extension(filename_raw: Seq<char>) -> bool {
    !upload_bad_filename(filename_raw) && !has_md_extension(file_components(filename_raw).last())
}

/// Run every validation gate of an upload, in order: filename, extension,
/// directory, empty body, oversized body. Nothing is mutated here; on
/// success the returned plan says where the body belongs.
pub fn prepare_upload(directory_raw: &str, filename_raw: &str, body: &[u8]) -> (r: Result<
    UploadPlan,
    CoreError,
>)
    ensures
        ({
            let bad_name = upload_bad_filename(filename_raw@);
            let bad_ext = upload_bad_extension(filename_raw@);
            let bad_dir = !bad_name && !bad_ext && has_traversal(norm_slashes(directory_raw@));
            let empty = !bad_name && !bad_ext && !bad_dir && body@.len() == 0;
            let too_large = !bad_name && !bad_ext && !bad_dir && !empty && body@.len()
                > MAX_UPLOAD_SIZE;
            &&& (bad_name ==> r == Err::<UploadPlan, CoreError>(CoreError::InvalidFilename))
            &&& (bad_ext ==> r == Err::<UploadPlan, CoreError>(CoreError::UnsupportedExtension))
            &&& (bad_dir ==> r == Err::<UploadPlan, CoreError>(CoreError::InvalidPath))
            &&& (empty ==> r == Err::<UploadPlan, CoreError>(CoreError::EmptyBody))
            &&& (too_large ==> r == Err::<UploadPlan, CoreError>(CoreError::BodyTooLarge))
            &&& (!bad_name && !bad_ext && !bad_dir && !empty && !too_large ==> (r matches Ok(
                plan,
            ) && plan.file_name@ == file_components(filename_raw@).last() && plan.directory@
                == normalized(norm_slashes(directory_raw@)) && plan.logical_path@
                == logical_path_of(plan.directory@, plan.file_name@)))
        }),
{
    let file_name = match sanitize_upload_filename(filename_raw) {
        Ok(n) => n,
        Err(e) => {
            return Err(e);
        },
    };
    let directory = match validate_upload_directory(directory_raw) {
        Ok(d) => d,
        Err(e) => {
            return Err(e);
        },
    };
    if body.len() == 0 {
        return Err(CoreError::EmptyBody);
    }
    if body.len() > MAX_UPLOAD_SIZE {
        return Err(CoreError::BodyTooLarge);
    }
    let logical_path: String = if directory.as_str().unicode_len() == 0 {
        file_name.clone()
    } else {
        let mut s = directory.clone();
        s.append("/");
        s.append(file_name.as_str());
        s
    };
    proof {
        reveal_strlit("/");
        if directory@.len() > 0 {
            assert("/"@ =~= seq!['/']);
        }
        assert(logical_path@ == logical_path_of(directory@, file_name@));
    }
    Ok(UploadPlan { file_name, directory, logical_path })
}

/// After the disk write succeeded: record the document in the index (insert
/// or replace), then evict any stale cache entry for its logical path, so
/// the next read recomputes from the new bytes.
pub fn commit_upload(
    files: &mut Vec<MarkdownFile>,
    cache: &mut ContentCache,
    logical_path: String,
    physical_path: String,
)
    requires
        index_sorted(old(files)@),
        old(cache).wf(),
    ensures
        upsert_post(old(files)@, final(files)@, logical_path@, physical_path@),
        final(cache).wf(),
        final(cache)@ == old(cache)@.remove(logical_path@),
{
    let key = logical_path.clone();
    upsert(files, logical_path, physical_path);
    cache.invalidate(key.as_str());
}

/// The eviction law of an upload: the cache state a commit leaves behind
/// holds no entry for the uploaded logical path. (That a following read
/// then misses, loads from disk, and hands the new text back unchanged is
/// what the contracts of `fetch_content` and `finish_load` say of such a
/// cache.)
pub proof fn lemma_upload_evicts(cache: Map<Seq<char>, CacheEntryView>, l: Seq<char>)
    ensures
        !cache.remove(l).contains_key(l),
{
}

} // verus!
