//! Path safety: validation of navigation paths and upload directory headers
//! against traversal attempts, and sanitization of upload filenames.
//!
//! A logical path is a `/`-delimited relative identifier. Validation splits
//! the input on `/`, drops empty segments, and rejects the whole input when
//! any remaining segment is `.` or contains `..` anywhere in it. A filename
//! is reduced to its final path component, which must carry a markdown
//! extension.

use vstd::prelude::*;

use crate::strings::{
    is_suffix, is_traversal, join_on, join_slash, lower, norm_slashes, normalize_separators,
    path_segments, seg_is_traversal, split_on, split_slash, str_eq, str_ends_with_lower,
    views_of,
};

verus! {

/// The error taxonomy of the whole core: scan, validation, upload and
/// content lookup all draw from this one enum.
#[derive(Clone, Copy, Debug, PartialEq, Eq, Structural)]
pub enum CoreError {
    /// The scan root is not a directory.
    NotADirectory,
    /// A read, write or directory creation failed on disk.
    Io,
    /// A navigation path or upload directory held a traversal segment.
    InvalidPath,
    /// An upload filename was empty after sanitization.
    InvalidFilename,
    /// An upload filename did not end in `.md` or `.markdown`.
    UnsupportedExtension,
    /// An upload body was empty.
    EmptyBody,
    /// An upload body exceeded the configured maximum.
    BodyTooLarge,
    /// A requested logical path is absent from the index.
    NotFound,
}

/// Some segment of the path (empty segments dropped) is `.` or contains
/// `..`: the input must be rejected.
pub open spec fn has_traversal(s: Seq<char>) -> bool {
    exists|k: int|
        0 <= k < path_segments(s).len() && is_traversal(#[trigger] path_segments(s)[k])
}

/// The normalized form of a path: its nonempty segments joined with `/`.
pub open spec fn normalized(s: Seq<char>) -> Seq<char> {
    join_on(path_segments(s), '/')
}

/// The law of traversal rejection: every input with `..` anywhere in one of
/// its segments — a `..` segment itself included — counts as a traversal,
/// so `validate_navigation_segment_list` and `validate_upload_directory`
/// reject it.
pub proof fn lemma_dotdot_is_traversal(s: Seq<char>, k: int)
    requires
        0 <= k < path_segments(s).len(),
        crate::strings::has_dotdot(path_segments(s)[k]),
    ensures
        has_traversal(s),
{
}

/// The nonempty `/`-separated segments of `raw`, as owned strings.
pub fn nonempty_segments(raw: &str) -> (r: Vec<String>)
    ensures
        views_of(r@) == path_segments(raw@),
{
    let parts = split_slash(raw);
    let ghost all = views_of(parts@);
    let ghost pred = |p: Seq<char>| p.len() > 0;
    let mut kept: Vec<String> = Vec::new();
    let mut i: usize = 0;
    proof {
        assert(all.take(0) =~~= Seq::<Seq<char>>::empty());
        assert(Seq::<Seq<char>>::empty().filter(pred) =~~= Seq::<Seq<char>>::empty()) by {
            reveal(Seq::filter);
        }
        assert(views_of(kept@) =~~= Seq::<Seq<char>>::empty());
    }
    while i < parts.len()
        invariant
            i <= parts@.len(),
            all == views_of(parts@),
            pred == (|p: Seq<char>| p.len() > 0),
            views_of(kept@) == all.take(i as int).filter(pred),
        decreases parts@.len() - i,
    {
        proof {
            assert(all.take(i as int + 1) =~~= all.take(i as int) + seq![all[i as int]]);
            Seq::<Seq<char>>::filter_distributes_over_add(
                all.take(i as int),
                seq![all[i as int]],
                pred,
            );
            assert(seq![all[i as int]].filter(pred) =~~= if pred(all[i as int]) {
                seq![all[i as int]]
            } else {
                Seq::<Seq<char>>::empty()
            }) by {
                reveal_with_fuel(Seq::filter, 2);
                assert(seq![all[i as int]].drop_last() =~~= Seq::<Seq<char>>::empty());
            }
        }
        let part = &parts[i];
        if part.as_str().unicode_len() > 0 {
            let ghost old_kept = kept@;
            kept.push(part.clone());
            proof {
                assert(views_of(kept@) =~~= views_of(old_kept).push(part@));
                assert(views_of(kept@) =~~= all.take(i as int).filter(pred) + seq![
                    all[i as int],
                ]);
            }
        } else {
            proof {
                assert(views_of(kept@) =~~= all.take(i as int).filter(pred));
            }
        }
        i = i + 1;
    }
    proof {
        assert(all.take(parts@.len() as int) =~~= all);
    }
    kept
}

/// Split a navigation path on `/`, drop empty segments, and reject any
/// traversal segment; on success the path is returned in normalized form.
pub fn validate_navigation_segment_list(raw: &str) -> (r: Result<String, CoreError>)
    ensures
        r is Ok <==> !has_traversal(raw@),
        r matches Ok(n) ==> n@ == normalized(raw@),
        r matches Err(e) ==> e == CoreError::InvalidPath,
{
    let segs = nonempty_segments(raw);
    let mut i: usize = 0;
    while i < segs.len()
        invariant
            i <= segs@.len(),
            views_of(segs@) == path_segments(raw@),
            forall|k: int| 0 <= k < i ==> !is_traversal(path_segments(raw@)[k]),
        decreases segs@.len() - i,
    {
        if seg_is_traversal(segs[i].as_str()) {
            proof {
                assert(is_traversal(path_segments(raw@)[i as int]));
            }
            return Err(CoreError::InvalidPath);
        }
        i = i + 1;
    }
    Ok(join_slash(&segs))
}

/// Validate the directory header of an upload: backslashes are first
/// normalized to forward slashes, then the traversal rule of navigation
/// paths applies. An empty header normalizes to the root directory.
pub fn validate_upload_directory(raw: &str) -> (r: Result<String, CoreError>)
    ensures
        r is Ok <==> !has_traversal(norm_slashes(raw@)),
        r matches Ok(n) ==> n@ == normalized(norm_slashes(raw@)),
        r matches Err(e) ==> e == CoreError::InvalidPath,
{
    let forward = normalize_separators(raw);
    validate_navigation_segment_list(forward.as_str())
}

/// The path components of a raw filename, in the sense of the host's notion
/// of a final component: empty segments and `.` segments do not count.
pub open spec fn file_components(s: Seq<char>) -> Seq<Seq<char>> {
    split_on(s, '/').filter(|p: Seq<char>| p.len() > 0 && p != seq!['.'])
}

/// The filename carries a markdown extension, compared without regard to
/// ASCII case.
pub open spec fn has_md_extension(name: Seq<char>) -> bool {
    is_suffix(".md"@, lower(name)) || is_suffix(".markdown"@, lower(name))
}

/// Reduce a raw upload filename to its final path component and require a
/// markdown extension. Directory components, including traversal attempts,
/// are silently discarded rather than rejected; only a name that reduces to
/// nothing (or to `..`) is an error.
pub fn sanitize_upload_filename(raw: &str) -> (r: Result<String, CoreError>)
    ensures
        ({
            let comps = file_components(raw@);
            &&& (comps.len() == 0 ==> r == Err::<String, CoreError>(CoreError::InvalidFilename))
            &&& (comps.len() > 0 && comps.last() == seq!['.', '.'] ==> r == Err::<
                String,
                CoreError,
            >(CoreError::InvalidFilename))
            &&& (comps.len() > 0 && comps.last() != seq!['.', '.'] && !has_md_extension(
                comps.last(),
            ) ==> r == Err::<String, CoreError>(CoreError::UnsupportedExtension))
            &&& (comps.len() > 0 && comps.last() != seq!['.', '.'] && has_md_extension(
                comps.last(),
            ) ==> (r matches Ok(n) && n@ == comps.last()))
        }),
{
    let parts = split_slash(raw);
    let ghost all = views_of(parts@);
    let ghost pred = |p: Seq<char>| p.len() > 0 && p != seq!['.'];
    let mut kept: Vec<String> = Vec::new();
    let mut i: usize = 0;
    proof {
        assert(all.take(0) =~~= Seq::<Seq<char>>::empty());
        assert(Seq::<Seq<char>>::empty().filter(pred) =~~= Seq::<Seq<char>>::empty()) by {
            reveal(Seq::filter);
        }
        assert(views_of(kept@) =~~= Seq::<Seq<char>>::empty());
    }
    while i < parts.len()
        invariant
            i <= parts@.len(),
            all == views_of(parts@),
            pred == (|p: Seq<char>| p.len() > 0 && p != seq!['.']),
            views_of(kept@) == all.take(i as int).filter(pred),
        decreases parts@.len() - i,
    {
        proof {
            assert(all.take(i as int + 1) =~~= all.take(i as int) + seq![all[i as int]]);
            Seq::<Seq<char>>::filter_distributes_over_add(
                all.take(i as int),
                seq![all[i as int]],
                pred,
            );
            assert(seq![all[i as int]].filter(pred) =~~= if pred(all[i as int]) {
                seq![all[i as int]]
            } else {
                Seq::<Seq<char>>::empty()
            }) by {
                reveal_with_fuel(Seq::filter, 2);
                assert(seq![all[i as int]].drop_last() =~~= Seq::<Seq<char>>::empty());
            }
        }
        let part = &parts[i];
        let keep = part.as_str().unicode_len() > 0 && !str_eq(part.as_str(), ".");
        proof {
            reveal_strlit(".");
            assert("."@ =~= seq!['.']);
            assert(keep == pred(all[i as int]));
        }
        if keep {
            let ghost old_kept = kept@;
            kept.push(part.clone());
            proof {
                assert(views_of(kept@) =~~= views_of(old_kept).push(part@));
                assert(views_of(kept@) =~~= all.take(i as int).filter(pred) + seq![
                    all[i as int],
                ]);
            }
        } else {
            proof {
                assert(views_of(kept@) =~~= all.take(i as int).filter(pred));
            }
        }
        i = i + 1;
    }
    proof {
        assert(all.take(parts@.len() as int) =~~= all);
        assert(views_of(kept@) == file_components(raw@));
    }
    if kept.len() == 0 {
        return Err(CoreError::InvalidFilename);
    }
    let name = &kept[kept.len() - 1];
    proof {
        assert(name@ == file_components(raw@).last());
    }
    if str_eq(name.as_str(), "..") {
        proof {
            reveal_strlit("..");
            assert(".."@ =~= seq!['.', '.']);
        }
        return Err(CoreError::InvalidFilename);
    }
    proof {
        reveal_strlit("..");
        assert(".."@ =~= seq!['.', '.']);
    }
    if str_ends_with_lower(name.as_str(), ".md") || str_ends_with_lower(
        name.as_str(),
        ".markdown",
    ) {
        Ok(name.clone())
    } else {
        Err(CoreError::UnsupportedExtension)
    }
}

} // verus!
