//! The file index and the directory view.
//!
//! The index is the authoritative set of known documents: entries pairing a
//! logical path (forward-slash relative identifier) with the physical
//! location it was found at. It is built once from a recursive scan, kept in
//! strictly ascending lexicographic order by logical path, and mutated only
//! by upserts. The view builder derives a single-level listing (immediate
//! subfolders and immediate files) from a snapshot of the index.

use vstd::prelude::*;

use crate::strings::{
    base_name, base_name_start, find_base_name_start, first_slash_at, is_prefix,
    lemma_first_slash_unique, lemma_lex_total, lemma_lex_transitive, lex_le, lex_lt,
    norm_slashes, normalize_separators, parent_of, str_eq, str_starts_with, str_trim_slashes,
    trim_slashes,
};

verus! {

/// One document known to the index: its logical path and where it lies on
/// disk (a host path, carried as text).
#[derive(Clone, Debug)]
pub struct MarkdownFile {
    pub name: String,
    pub path: String,
}

/// The mathematical content of one index entry.
pub struct MarkdownFileView {
    pub name: Seq<char>,
    pub path: Seq<char>,
}

impl View for MarkdownFile {
    type V = MarkdownFileView;

    open spec fn view(&self) -> MarkdownFileView {
        MarkdownFileView { name: self.name@, path: self.path@ }
    }
}

impl MarkdownFile {
    /// A copy whose fields are known to match the original's.
    pub fn duplicate(&self) -> (r: Self)
        ensures
            r@ == self@,
    {
        MarkdownFile { name: self.name.clone(), path: self.path.clone() }
    }
}

/// The mathematical contents of a sequence of entries.
pub open spec fn mf_views(files: Seq<MarkdownFile>) -> Seq<MarkdownFileView> {
    files.map_values(|f: MarkdownFile| f@)
}

/// Entries in weakly ascending lexicographic order of logical path.
pub open spec fn sorted_le(files: Seq<MarkdownFile>) -> bool {
    forall|i: int, j: int|
        0 <= i < j < files.len() ==> lex_le(#[trigger] files[i].name@, #[trigger] files[j].name@)
}

/// The index invariant: entries in strictly ascending lexicographic order of
/// logical path, so names are also unique.
pub open spec fn index_sorted(files: Seq<MarkdownFile>) -> bool {
    forall|i: int, j: int|
        0 <= i < j < files.len() ==> lex_lt(#[trigger] files[i].name@, #[trigger] files[j].name@)
}

/// The index holds an entry for logical path `n`.
pub open spec fn index_has(files: Seq<MarkdownFile>, n: Seq<char>) -> bool {
    exists|i: int| 0 <= i < files.len() && #[trigger] files[i].name@ == n
}

/// The physical path the index maps logical path `n` to.
pub open spec fn index_path_of(files: Seq<MarkdownFile>, n: Seq<char>) -> Seq<char> {
    files[choose|i: int| 0 <= i < files.len() && #[trigger] files[i].name@ == n].path@
}

pub proof fn lemma_index_unique(files: Seq<MarkdownFile>, i: int, j: int)
    requires
        index_sorted(files),
        0 <= i < files.len(),
        0 <= j < files.len(),
        files[i].name@ == files[j].name@,
    ensures
        i == j,
{
}

/// With the index invariant, the entry found at `i` settles the lookup.
pub proof fn lemma_index_path_at(files: Seq<MarkdownFile>, i: int)
    requires
        index_sorted(files),
        0 <= i < files.len(),
    ensures
        index_has(files, files[i].name@),
        index_path_of(files, files[i].name@) == files[i].path@,
{
    let n = files[i].name@;
    let w = choose|k: int| 0 <= k < files.len() && #[trigger] files[k].name@ == n;
    lemma_index_unique(files, w, i);
}

/// What an upsert of `(n, p)` leaves behind: the order invariant, the old
/// logical paths plus `n`, `n` mapped to `p`, everything else untouched.
pub open spec fn upsert_post(
    olds: Seq<MarkdownFile>,
    news: Seq<MarkdownFile>,
    n: Seq<char>,
    p: Seq<char>,
) -> bool {
    &&& index_sorted(news)
    &&& forall|m: Seq<char>| #[trigger] index_has(news, m) <==> (index_has(olds, m) || m == n)
    &&& index_path_of(news, n) == p
    &&& forall|m: Seq<char>|
        m != n && #[trigger] index_has(olds, m) ==> index_path_of(news, m) == index_path_of(
            olds,
            m,
        )
}

/// Two indexes in invariant form with the same logical paths, mapped to the
/// same physical paths, have the same content.
pub proof fn lemma_index_same_content(a: Seq<MarkdownFile>, b: Seq<MarkdownFile>)
    requires
        index_sorted(a),
        index_sorted(b),
        forall|n: Seq<char>| #[trigger] index_has(a, n) <==> index_has(b, n),
        forall|n: Seq<char>|
            #[trigger] index_has(a, n) ==> index_path_of(a, n) == index_path_of(b, n),
    ensures
        mf_views(a) == mf_views(b),
    decreases a.len(),
{
    if a.len() == 0 {
        if b.len() > 0 {
            assert(index_has(b, b[0].name@));
            assert(index_has(a, b[0].name@));
            assert(false);
        }
        assert(mf_views(a) =~= mf_views(b));
    } else {
        assert(index_has(a, a[0].name@));
        assert(index_has(b, a[0].name@));
        if b.len() == 0 {
            assert(false);
        }
        // The two heads carry the least name of the shared set, so they are
        // the same entry.
        let j = choose|i: int| 0 <= i < b.len() && #[trigger] b[i].name@ == a[0].name@;
        assert(index_has(b, b[0].name@));
        assert(index_has(a, b[0].name@));
        let k = choose|i: int| 0 <= i < a.len() && #[trigger] a[i].name@ == b[0].name@;
        assert(lex_le(b[0].name@, a[0].name@)) by {
            if j > 0 {
                assert(lex_lt(b[0].name@, b[j].name@));
            } else {
                crate::strings::lemma_lex_total(b[0].name@, a[0].name@);
                if !lex_le(b[0].name@, a[0].name@) {
                    assert(b[0].name@ == a[0].name@);
                }
            }
        }
        assert(lex_le(a[0].name@, b[0].name@)) by {
            if k > 0 {
                assert(lex_lt(a[0].name@, a[k].name@));
            } else {
                crate::strings::lemma_lex_total(a[0].name@, b[0].name@);
                if !lex_le(a[0].name@, b[0].name@) {
                    assert(a[0].name@ == b[0].name@);
                }
            }
        }
        crate::strings::lemma_lex_antisymmetric(a[0].name@, b[0].name@);
        assert(a[0].name@ == b[0].name@);
        lemma_index_path_at(a, 0);
        lemma_index_path_at(b, 0);
        assert(a[0].path@ == b[0].path@);

        let ta = a.drop_first();
        let tb = b.drop_first();
        assert(forall|i: int| 0 <= i < ta.len() ==> #[trigger] ta[i] == a[i + 1]);
        assert(forall|i: int| 0 <= i < tb.len() ==> #[trigger] tb[i] == b[i + 1]);
        assert(index_sorted(ta));
        assert(index_sorted(tb));
        assert forall|n: Seq<char>| #[trigger]
            index_has(ta, n) <==> (index_has(a, n) && n != a[0].name@) by {
            if index_has(ta, n) {
                let w = choose|i: int| 0 <= i < ta.len() && #[trigger] ta[i].name@ == n;
                assert(a[w + 1].name@ == n);
                assert(lex_lt(a[0].name@, a[w + 1].name@));
            }
            if index_has(a, n) && n != a[0].name@ {
                let w = choose|i: int| 0 <= i < a.len() && #[trigger] a[i].name@ == n;
                assert(w > 0);
                assert(ta[w - 1].name@ == n);
            }
        }
        assert forall|n: Seq<char>| #[trigger]
            index_has(tb, n) <==> (index_has(b, n) && n != b[0].name@) by {
            if index_has(tb, n) {
                let w = choose|i: int| 0 <= i < tb.len() && #[trigger] tb[i].name@ == n;
                assert(b[w + 1].name@ == n);
                assert(lex_lt(b[0].name@, b[w + 1].name@));
            }
            if index_has(b, n) && n != b[0].name@ {
                let w = choose|i: int| 0 <= i < b.len() && #[trigger] b[i].name@ == n;
                assert(w > 0);
                assert(tb[w - 1].name@ == n);
            }
        }
        assert forall|n: Seq<char>| #[trigger]
            index_has(ta, n) implies index_path_of(ta, n) == index_path_of(tb, n) by {
            let w = choose|i: int| 0 <= i < ta.len() && #[trigger] ta[i].name@ == n;
            lemma_index_path_at(ta, w);
            lemma_index_path_at(a, w + 1);
            assert(index_has(tb, n));
            let w2 = choose|i: int| 0 <= i < tb.len() && #[trigger] tb[i].name@ == n;
            lemma_index_path_at(tb, w2);
            lemma_index_path_at(b, w2 + 1);
        }
        lemma_index_same_content(ta, tb);
        assert(mf_views(a) =~= mf_views(b)) by {
            assert(a.len() == b.len()) by {
                assert(mf_views(ta).len() == mf_views(tb).len());
            }
            assert(forall|i: int|
                1 <= i < a.len() ==> #[trigger] mf_views(a)[i] == mf_views(ta)[i - 1]);
            assert(forall|i: int|
                1 <= i < b.len() ==> #[trigger] mf_views(b)[i] == mf_views(tb)[i - 1]);
        }
    }
}

/// The idempotence law of upserts: a second upsert of the same logical and
/// physical path leaves the index's content exactly as the first left it.
pub proof fn lemma_upsert_idempotent(
    s0: Seq<MarkdownFile>,
    s1: Seq<MarkdownFile>,
    s2: Seq<MarkdownFile>,
    n: Seq<char>,
    p: Seq<char>,
)
    requires
        upsert_post(s0, s1, n, p),
        upsert_post(s1, s2, n, p),
    ensures
        mf_views(s1) == mf_views(s2),
{
    assert(index_has(s1, n));
    assert forall|m: Seq<char>| #[trigger] index_has(s1, m) <==> index_has(s2, m) by {
        assert(index_has(s2, m) <==> (index_has(s1, m) || m == n));
    }
    assert forall|m: Seq<char>| #[trigger]
        index_has(s1, m) implies index_path_of(s1, m) == index_path_of(s2, m) by {
        if m != n {
        } else {
            assert(index_path_of(s1, n) == p);
            assert(index_path_of(s2, n) == p);
        }
    }
    lemma_index_same_content(s1, s2);
}

/// Whether `j` is the position of the last dot in `s`.
pub open spec fn dot_at(s: Seq<char>, j: int) -> bool {
    0 <= j < s.len() && s[j] == '.' && (forall|m: int| j < m < s.len() ==> s[m] != '.')
}

/// The scan's eligibility rule: the final path component has extension
/// exactly `md`, case-sensitively. (Uploads are more lenient; the asymmetry
/// is the system's, kept as it stands.)
pub open spec fn md_eligible(name: Seq<char>) -> bool {
    exists|j: int|
        #[trigger] dot_at(base_name(name), j) && j > 0 && base_name(name).skip(j + 1) == "md"@
}

proof fn lemma_dot_at_unique(s: Seq<char>, j1: int, j2: int)
    requires
        dot_at(s, j1),
        dot_at(s, j2),
    ensures
        j1 == j2,
{
}

/// Decide the scan's eligibility rule for one relative name.
pub fn is_md_file_name(name: &str) -> (r: bool)
    ensures
        r == md_eligible(name@),
{
    let len = name.unicode_len();
    let bstart = find_base_name_start(name);
    let ghost base = base_name(name@);
    proof {
        assert(base =~= name@.skip(bstart as int));
    }
    let mut i: usize = len;
    while i > bstart
        invariant
            bstart <= i <= len,
            len == name@.len(),
            bstart == base_name_start(name@),
            base == base_name(name@),
            base == name@.skip(bstart as int),
            forall|m: int| i <= m < len ==> name@[m] != '.',
        decreases i,
    {
        if name.get_char(i - 1) == '.' {
            let ghost j = i - 1 - bstart;
            proof {
                assert(base[j as int] == name@[i as int - 1]);
                assert(forall|m: int|
                    j < m < base.len() ==> base[m] == name@[m + bstart] && #[trigger] base[m]
                        != '.');
                assert(dot_at(base, j as int));
            }
            if i - 1 > bstart && len - i == 2 && name.get_char(i) == 'm' && name.get_char(
                i + 1,
            ) == 'd' {
                proof {
                    reveal_strlit("md");
                    assert(base.skip(j as int + 1) =~= "md"@);
                    assert(md_eligible(name@));
                }
                return true;
            }
            proof {
                assert(forall|j2: int| #[trigger] dot_at(base, j2) ==> j2 == j) by {
                    assert forall|j2: int| #[trigger] dot_at(base, j2) implies j2 == j by {
                        lemma_dot_at_unique(base, j2, j as int);
                    }
                }
                if j > 0 && base.skip(j as int + 1) == "md"@ {
                    reveal_strlit("md");
                    assert(base.skip(j as int + 1).len() == 2);
                    assert(len - i == 2);
                    assert(base.skip(j as int + 1)[0] == name@[i as int]);
                    assert(base.skip(j as int + 1)[1] == name@[i as int + 1]);
                    assert(name@[i as int] == 'm' && name@[i as int + 1] == 'd');
                    assert(false);
                }
                assert(!md_eligible(name@));
            }
            return false;
        }
        i = i - 1;
    }
    proof {
        assert(forall|j: int| 0 <= j < base.len() ==> #[trigger] base[j] != '.');
        assert(!md_eligible(name@));
    }
    false
}

/// Insert an entry into a weakly sorted sequence, after any entries of equal
/// name, keeping the order.
pub fn insert_sorted(files: &mut Vec<MarkdownFile>, f: MarkdownFile)
    requires
        sorted_le(old(files)@),
    ensures
        sorted_le(final(files)@),
        mf_views(final(files)@).to_multiset() == mf_views(old(files)@).to_multiset().insert(
            f@,
        ),
{
    broadcast use vstd::seq_lib::to_multiset_insert;

    let mut j: usize = 0;
    while j < files.len() && !str_lex_lt_entry(&f, &files[j])
        invariant
            j <= files@.len(),
            sorted_le(files@),
            files@ == old(files)@,
            forall|k: int| 0 <= k < j ==> lex_le(#[trigger] files@[k].name@, f.name@),
        decreases files@.len() - j,
    {
        proof {
            lemma_lex_total(f.name@, files@[j as int].name@);
        }
        j = j + 1;
    }
    let ghost olds = files@;
    let ghost fj = j as int;
    proof {
        if fj < olds.len() {
            assert(lex_lt(f.name@, olds[fj].name@));
        }
    }
    files.insert(j, f);
    proof {
        assert(files@ =~= olds.insert(fj, f));
        assert(mf_views(files@) =~~= mf_views(olds).insert(fj, f@));
        assert(sorted_le(files@)) by {
            assert forall|i: int, k: int|
                0 <= i < k < files@.len() implies lex_le(
                #[trigger] files@[i].name@,
                #[trigger] files@[k].name@,
            ) by {
                if i < fj && k == fj {
                } else if i == fj && k > fj {
                    assert(lex_lt(f.name@, olds[fj].name@));
                    if k - 1 > fj {
                        lemma_lex_transitive(f.name@, olds[fj].name@, olds[k - 1].name@);
                    }
                } else if i < fj && k > fj {
                } else if i > fj && k > fj {
                } else {
                }
            }
        }
    }
}

fn str_lex_lt_entry(f: &MarkdownFile, g: &MarkdownFile) -> (r: bool)
    ensures
        r == lex_lt(f.name@, g.name@),
{
    let le = crate::strings::str_lex_le(f.name.as_str(), g.name.as_str());
    let eq = crate::strings::str_eq(f.name.as_str(), g.name.as_str());
    le && !eq
}

/// Build the index from the raw results of a recursive scan: keep the
/// entries whose relative name carries extension exactly `md`, normalize
/// host separators in the name to `/`, and sort ascending by logical path.
pub fn index_from_entries(entries: Vec<MarkdownFile>) -> (r: Vec<MarkdownFile>)
    ensures
        sorted_le(r@),
        mf_views(r@).to_multiset() == mf_views(entries@).map_values(
            |v: MarkdownFileView| MarkdownFileView { name: norm_slashes(v.name), path: v.path },
        ).filter(|v: MarkdownFileView| md_eligible(v.name)).to_multiset(),
{
    let ghost norm = |v: MarkdownFileView| MarkdownFileView {
        name: norm_slashes(v.name),
        path: v.path,
    };
    let ghost pred = |v: MarkdownFileView| md_eligible(v.name);
    let ghost target = |s: Seq<MarkdownFile>| mf_views(s).map_values(norm).filter(pred);
    let mut r: Vec<MarkdownFile> = Vec::new();
    let mut i: usize = 0;
    proof {
        assert(target(entries@.take(0)) =~~= Seq::<MarkdownFileView>::empty()) by {
            reveal(Seq::filter);
            assert(mf_views(entries@.take(0)).map_values(norm)
                =~~= Seq::<MarkdownFileView>::empty());
        }
        assert(mf_views(r@) =~~= Seq::<MarkdownFileView>::empty());
        assert(mf_views(r@).to_multiset() =~~= target(entries@.take(0)).to_multiset());
    }
    while i < entries.len()
        invariant
            i <= entries@.len(),
            sorted_le(r@),
            norm == (|v: MarkdownFileView| MarkdownFileView {
                name: norm_slashes(v.name),
                path: v.path,
            }),
            pred == (|v: MarkdownFileView| md_eligible(v.name)),
            target == (|s: Seq<MarkdownFile>| mf_views(s).map_values(norm).filter(pred)),
            mf_views(r@).to_multiset() == target(entries@.take(i as int)).to_multiset(),
        decreases entries@.len() - i,
    {
        broadcast use vstd::seq_lib::to_multiset_build;

        let entry = &entries[i];
        let normalized = normalize_separators(entry.name.as_str());
        let ghost nv = norm(entry@);
        proof {
            let pre = mf_views(entries@.take(i as int)).map_values(norm);
            let now = mf_views(entries@.take(i as int + 1)).map_values(norm);
            assert(now =~~= pre.push(nv));
            Seq::<MarkdownFileView>::filter_distributes_over_add(pre, seq![nv], pred);
            assert(pre + seq![nv] =~~= now);
            assert(seq![nv].filter(pred) =~~= if pred(nv) {
                seq![nv]
            } else {
                Seq::<MarkdownFileView>::empty()
            }) by {
                reveal_with_fuel(Seq::filter, 2);
                assert(seq![nv].drop_last() =~~= Seq::<MarkdownFileView>::empty());
            }
            assert(target(entries@.take(i as int + 1)) =~~= if pred(nv) {
                target(entries@.take(i as int)).push(nv)
            } else {
                target(entries@.take(i as int))
            });
        }
        if is_md_file_name(normalized.as_str()) {
            let f = MarkdownFile { name: normalized, path: entry.path.clone() };
            proof {
                assert(f@ == nv);
            }
            insert_sorted(&mut r, f);
            proof {
                assert(target(entries@.take(i as int + 1)).to_multiset() =~~= target(
                    entries@.take(i as int),
                ).to_multiset().insert(nv));
            }
        }
        i = i + 1;
    }
    proof {
        assert(entries@.take(entries@.len() as int) =~~= entries@);
    }
    r
}

/// Decide at run time whether the index invariant holds: strictly ascending
/// logical paths. Adjacent order suffices, since the order is transitive.
pub fn check_index_sorted(files: &Vec<MarkdownFile>) -> (r: bool)
    ensures
        r == index_sorted(files@),
{
    let mut i: usize = 1;
    while i < files.len()
        invariant
            1 <= i,
            i <= files@.len() || files@.len() == 0,
            forall|k: int|
                0 <= k && k + 1 < i && k + 1 < files@.len() ==> lex_lt(
                    #[trigger] files@[k].name@,
                    files@[k + 1].name@,
                ),
        decreases files@.len() - i,
    {
        if !str_lex_lt_entry(&files[i - 1], &files[i]) {
            proof {
                assert(!index_sorted(files@)) by {
                    if index_sorted(files@) {
                        assert(lex_lt(files@[i as int - 1].name@, files@[i as int].name@));
                    }
                }
            }
            return false;
        }
        i = i + 1;
    }
    proof {
        assert(index_sorted(files@)) by {
            assert forall|a: int, b: int|
                0 <= a < b < files@.len() implies lex_lt(
                #[trigger] files@[a].name@,
                #[trigger] files@[b].name@,
            ) by {
                lemma_adjacent_sorted(files@, a, b);
            }
        }
    }
    true
}

proof fn lemma_adjacent_sorted(files: Seq<MarkdownFile>, a: int, b: int)
    requires
        forall|k: int|
            0 <= k && k + 1 < files.len() ==> lex_lt(
                #[trigger] files[k].name@,
                files[k + 1].name@,
            ),
        0 <= a < b < files.len(),
    ensures
        lex_lt(files[a].name@, files[b].name@),
    decreases b - a,
{
    if a + 1 == b {
    } else {
        lemma_adjacent_sorted(files, a, b - 1);
        crate::strings::lemma_lex_lt_transitive(
            files[a].name@,
            files[b - 1].name@,
            files[b].name@,
        );
    }
}

/// A point-in-time copy of the index, taken so that longer-running work can
/// proceed without holding whatever lock guards the shared index.
pub fn snapshot(files: &Vec<MarkdownFile>) -> (r: Vec<MarkdownFile>)
    ensures
        mf_views(r@) == mf_views(files@),
{
    let mut r: Vec<MarkdownFile> = Vec::new();
    let mut i: usize = 0;
    while i < files.len()
        invariant
            i <= files@.len(),
            mf_views(r@) == mf_views(files@).take(i as int),
        decreases files@.len() - i,
    {
        let ghost oldr = r@;
        r.push(files[i].duplicate());
        proof {
            assert(mf_views(r@) =~~= mf_views(oldr).push(files@[i as int]@));
            assert(mf_views(files@).take(i as int + 1) =~~= mf_views(files@).take(
                i as int,
            ).push(files@[i as int]@));
        }
        i = i + 1;
    }
    proof {
        assert(mf_views(files@).take(files@.len() as int) =~~= mf_views(files@));
    }
    r
}

/// Insert a new logical path or replace the physical path of an existing
/// one; the ordering invariant is preserved and nothing else changes.
/// Idempotent.
pub fn upsert(files: &mut Vec<MarkdownFile>, name: String, path: String)
    requires
        index_sorted(old(files)@),
    ensures
        upsert_post(old(files)@, final(files)@, name@, path@),
{
    let ghost olds = old(files)@;
    let mut j: usize = 0;
    while j < files.len() && !str_eq(files[j].name.as_str(), name.as_str())
        && !crate::strings::str_lex_le(name.as_str(), files[j].name.as_str())
        invariant
            j <= files@.len(),
            files@ == olds,
            index_sorted(files@),
            forall|k: int| 0 <= k < j ==> lex_lt(#[trigger] files@[k].name@, name@),
        decreases files@.len() - j,
    {
        proof {
            lemma_lex_total(name@, files@[j as int].name@);
        }
        j = j + 1;
    }
    let ghost fj = j as int;
    if j < files.len() && str_eq(files[j].name.as_str(), name.as_str()) {
        // Same logical path: replace the physical path, order unchanged.
        let _ = files.remove(j);
        files.insert(j, MarkdownFile { name, path });
        proof {
            assert(files@ =~= olds.update(fj, files@[fj]));
            assert(files@[fj].name@ == olds[fj].name@);
            assert(index_sorted(files@)) by {
                assert(forall|i: int|
                    0 <= i < files@.len() ==> #[trigger] files@[i].name@ == olds[i].name@);
            }
            assert forall|n: Seq<char>| #[trigger]
                index_has(files@, n) <==> (index_has(olds, n) || n == name@) by {
                if index_has(files@, n) {
                    let w = choose|i: int|
                        0 <= i < files@.len() && #[trigger] files@[i].name@ == n;
                    if w == fj {
                        assert(n == name@);
                    } else {
                        assert(olds[w].name@ == n);
                    }
                }
                if index_has(olds, n) {
                    let w = choose|i: int| 0 <= i < olds.len() && #[trigger] olds[i].name@ == n;
                    assert(files@[w].name@ == n);
                }
                if n == name@ {
                    assert(files@[fj].name@ == n);
                }
            }
            lemma_index_path_at(files@, fj);
            assert forall|n: Seq<char>|
                n != name@ && #[trigger] index_has(olds, n) implies index_path_of(files@, n)
                == index_path_of(olds, n) by {
                let w = choose|i: int| 0 <= i < olds.len() && #[trigger] olds[i].name@ == n;
                assert(w != fj);
                assert(files@[w].name@ == n && files@[w].path@ == olds[w].path@);
                lemma_index_path_at(files@, w);
                lemma_index_path_at(olds, w);
            }
        }
    } else {
        proof {
            if fj < olds.len() {
                lemma_lex_total(name@, olds[fj].name@);
                assert(lex_lt(name@, olds[fj].name@));
            }
        }
        files.insert(j, MarkdownFile { name, path });
        proof {
            assert(files@ =~= olds.insert(fj, files@[fj]));
            assert(files@[fj].name@ == name@ && files@[fj].path@ == path@);
            assert(forall|i: int| 0 <= i < fj ==> #[trigger] files@[i].name@ == olds[i].name@);
            assert(forall|i: int|
                fj < i < files@.len() ==> #[trigger] files@[i].name@ == olds[i - 1].name@);
            assert(index_sorted(files@)) by {
                assert forall|i: int, k: int|
                    0 <= i < k < files@.len() implies lex_lt(
                    #[trigger] files@[i].name@,
                    #[trigger] files@[k].name@,
                ) by {
                    if i < fj && k == fj {
                    } else if i == fj && k > fj {
                        assert(lex_lt(name@, olds[fj].name@));
                        if k - 1 > fj {
                            crate::strings::lemma_lex_lt_transitive(
                                name@,
                                olds[fj].name@,
                                olds[k - 1].name@,
                            );
                        }
                    } else if i < fj && k > fj {
                    } else if i > fj && k > fj {
                    } else if i < fj && k < fj {
                    } else {
                    }
                }
            }
            assert forall|n: Seq<char>| #[trigger]
                index_has(files@, n) <==> (index_has(olds, n) || n == name@) by {
                if index_has(files@, n) {
                    let w = choose|i: int|
                        0 <= i < files@.len() && #[trigger] files@[i].name@ == n;
                    if w == fj {
                    } else if w < fj {
                        assert(olds[w].name@ == n);
                    } else {
                        assert(olds[w - 1].name@ == n);
                    }
                }
                if index_has(olds, n) {
                    let w = choose|i: int| 0 <= i < olds.len() && #[trigger] olds[i].name@ == n;
                    if w < fj {
                        assert(files@[w].name@ == n);
                    } else {
                        assert(files@[w + 1].name@ == n);
                    }
                }
                if n == name@ {
                    assert(files@[fj].name@ == n);
                }
            }
            lemma_index_path_at(files@, fj);
            assert forall|n: Seq<char>|
                n != name@ && #[trigger] index_has(olds, n) implies index_path_of(files@, n)
                == index_path_of(olds, n) by {
                let w = choose|i: int| 0 <= i < olds.len() && #[trigger] olds[i].name@ == n;
                lemma_index_path_at(olds, w);
                if w < fj {
                    assert(files@[w].name@ == n && files@[w].path@ == olds[w].path@);
                    lemma_index_path_at(files@, w);
                } else {
                    assert(files@[w + 1].name@ == n && files@[w + 1].path@ == olds[w].path@);
                    lemma_index_path_at(files@, w + 1);
                }
            }
        }
    }
}

/// One immediate subfolder in a directory view.
#[derive(Clone, Debug)]
pub struct DirectoryEntry {
    pub name: String,
    pub path: String,
}

/// The mathematical content of one subfolder entry.
pub struct DirectoryEntryView {
    pub name: Seq<char>,
    pub path: Seq<char>,
}

impl View for DirectoryEntry {
    type V = DirectoryEntryView;

    open spec fn view(&self) -> DirectoryEntryView {
        DirectoryEntryView { name: self.name@, path: self.path@ }
    }
}

/// The current directory view: the normalized path, its parent (absent at
/// the root), the immediate subfolders, and the immediate files.
#[derive(Clone, Debug)]
pub struct DirectoryListing {
    pub current_path: String,
    pub parent: Option<String>,
    pub directories: Vec<DirectoryEntry>,
    pub files: Vec<MarkdownFile>,
}

/// The prefix that confines a listing to directory `p`.
pub open spec fn listing_prefix(p: Seq<char>) -> Seq<char> {
    if p.len() == 0 {
        p
    } else {
        p + seq!['/']
    }
}

/// What remains of logical path `n` below directory `p`.
pub open spec fn rem_of(n: Seq<char>, p: Seq<char>) -> Seq<char> {
    n.skip(listing_prefix(p).len() as int)
}

/// `n` is an immediate file of directory `p`.
pub open spec fn listed_file(n: Seq<char>, p: Seq<char>) -> bool {
    is_prefix(listing_prefix(p), n) && n.len() > listing_prefix(p).len() && !rem_of(
        n,
        p,
    ).contains('/')
}

/// `n` lies under an immediate subfolder named `d` of directory `p`.
pub open spec fn listed_dir(n: Seq<char>, p: Seq<char>, d: Seq<char>) -> bool {
    is_prefix(listing_prefix(p), n) && exists|k: int|
        #[trigger] first_slash_at(rem_of(n, p), k) && d == rem_of(n, p).take(k)
}

/// Some entry lies under an immediate subfolder named `d` of `p`.
pub open spec fn some_listed_dir(files: Seq<MarkdownFile>, p: Seq<char>, d: Seq<char>) -> bool {
    exists|i: int| 0 <= i < files.len() && #[trigger] listed_dir(files[i].name@, p, d)
}

/// The synthesized path of subfolder `d` of directory `p`.
pub open spec fn child_path(p: Seq<char>, d: Seq<char>) -> Seq<char> {
    if p.len() == 0 {
        d
    } else {
        p + seq!['/'] + d
    }
}

/// The view holds a subfolder named `d`.
pub open spec fn dirs_have(entries: Seq<DirectoryEntry>, d: Seq<char>) -> bool {
    exists|i: int| 0 <= i < entries.len() && #[trigger] entries[i].name@ == d
}

/// Subfolder names in strictly ascending order (so also unique).
pub open spec fn dirs_sorted(entries: Seq<DirectoryEntry>) -> bool {
    forall|i: int, j: int|
        0 <= i < j < entries.len() ==> lex_lt(
            #[trigger] entries[i].name@,
            #[trigger] entries[j].name@,
        )
}

spec fn names_sorted(v: Seq<String>) -> bool {
    forall|i: int, j: int| 0 <= i < j < v.len() ==> lex_lt(#[trigger] v[i]@, #[trigger] v[j]@)
}

spec fn names_have(v: Seq<String>, d: Seq<char>) -> bool {
    exists|i: int| 0 <= i < v.len() && #[trigger] v[i]@ == d
}

/// Insert a name into a strictly sorted set of names; present names stay as
/// they are.
fn insert_unique_sorted(v: &mut Vec<String>, d: String)
    requires
        names_sorted(old(v)@),
    ensures
        names_sorted(final(v)@),
        forall|x: Seq<char>|
            #[trigger] names_have(final(v)@, x) <==> (names_have(old(v)@, x) || x == d@),
{
    let ghost olds = old(v)@;
    let mut j: usize = 0;
    while j < v.len() && !str_eq(v[j].as_str(), d.as_str()) && !crate::strings::str_lex_le(
        d.as_str(),
        v[j].as_str(),
    )
        invariant
            j <= v@.len(),
            v@ == olds,
            names_sorted(v@),
            forall|k: int| 0 <= k < j ==> lex_lt(#[trigger] v@[k]@, d@),
        decreases v@.len() - j,
    {
        proof {
            lemma_lex_total(d@, v@[j as int]@);
        }
        j = j + 1;
    }
    let ghost fj = j as int;
    if j < v.len() && str_eq(v[j].as_str(), d.as_str()) {
        proof {
            assert(v@[fj]@ == d@);
            assert forall|x: Seq<char>| #[trigger]
                names_have(v@, x) <==> (names_have(olds, x) || x == d@) by {
                if x == d@ {
                    assert(v@[fj]@ == x);
                }
            }
        }
        return ;
    }
    proof {
        if fj < olds.len() {
            lemma_lex_total(d@, olds[fj]@);
            assert(lex_lt(d@, olds[fj]@));
        }
    }
    v.insert(j, d);
    proof {
        assert(v@ =~= olds.insert(fj, v@[fj]));
        assert(forall|i: int| 0 <= i < fj ==> #[trigger] v@[i]@ == olds[i]@);
        assert(forall|i: int| fj < i < v@.len() ==> #[trigger] v@[i]@ == olds[i - 1]@);
        assert(names_sorted(v@)) by {
            assert forall|i: int, k: int|
                0 <= i < k < v@.len() implies lex_lt(#[trigger] v@[i]@, #[trigger] v@[k]@) by {
                if i == fj && k > fj {
                    assert(lex_lt(v@[fj]@, olds[fj]@));
                    if k - 1 > fj {
                        crate::strings::lemma_lex_lt_transitive(
                            v@[fj]@,
                            olds[fj]@,
                            olds[k - 1]@,
                        );
                    }
                }
            }
        }
        assert forall|x: Seq<char>| #[trigger]
            names_have(v@, x) <==> (names_have(olds, x) || x == v@[fj]@) by {
            if names_have(v@, x) {
                let w = choose|i: int| 0 <= i < v@.len() && #[trigger] v@[i]@ == x;
                if w < fj {
                    assert(olds[w]@ == x);
                } else if w > fj {
                    assert(olds[w - 1]@ == x);
                }
            }
            if names_have(olds, x) {
                let w = choose|i: int| 0 <= i < olds.len() && #[trigger] olds[i]@ == x;
                if w < fj {
                    assert(v@[w]@ == x);
                } else {
                    assert(v@[w + 1]@ == x);
                }
            }
            if x == v@[fj]@ {
                assert(v@[fj]@ == x);
            }
        }
    }
}

/// Find the first slash at or after position `from`.
fn find_first_slash_from(s: &str, from: usize) -> (r: Option<usize>)
    requires
        from <= s@.len(),
    ensures
        r matches Some(k) ==> from <= k < s@.len() && s@[k as int] == '/' && (forall|m: int|
            from <= m < k ==> s@[m] != '/'),
        r is None ==> forall|m: int| from <= m < s@.len() ==> s@[m] != '/',
{
    let len = s.unicode_len();
    let mut i: usize = from;
    while i < len
        invariant
            from <= i <= len,
            len == s@.len(),
            forall|m: int| from <= m < i ==> s@[m] != '/',
        decreases len - i,
    {
        if s.get_char(i) == '/' {
            return Some(i);
        }
        i = i + 1;
    }
    None
}

/// Build a single-level view of directory `current_path` (leading and
/// trailing slashes ignored) from a snapshot of the index: the immediate
/// files below it, sorted ascending by full logical path, and the immediate
/// subfolders, each once, sorted ascending by name, with their synthesized
/// paths; the parent is the path with its last segment removed, absent at
/// the root.
pub fn list_directory_contents(all_files: &Vec<MarkdownFile>, current_path: &str) -> (r:
    DirectoryListing)
    ensures
        ({
            let p = trim_slashes(current_path@);
            &&& r.current_path@ == p
            &&& (p.len() == 0 ==> r.parent is None)
            &&& (p.len() > 0 ==> (r.parent matches Some(q) && q@ == parent_of(p)))
            &&& sorted_le(r.files@)
            &&& mf_views(r.files@).to_multiset() == mf_views(all_files@).filter(
                |v: MarkdownFileView| listed_file(v.name, p),
            ).to_multiset()
            &&& dirs_sorted(r.directories@)
            &&& (forall|d: Seq<char>|
                #[trigger] dirs_have(r.directories@, d) <==> some_listed_dir(all_files@, p, d))
            &&& (forall|q: int|
                0 <= q < r.directories@.len() ==> #[trigger] r.directories@[q].path@
                    == child_path(p, r.directories@[q].name@))
        }),
{
    let normalized = str_trim_slashes(current_path);
    let ghost p = trim_slashes(current_path@);
    let nlen = normalized.as_str().unicode_len();
    let prefix: String = if nlen == 0 {
        String::new()
    } else {
        let mut t = normalized.clone();
        t.append("/");
        t
    };
    proof {
        reveal_strlit("/");
        if p.len() > 0 {
            assert("/"@ =~= seq!['/']);
        }
        assert(prefix@ == listing_prefix(p));
    }
    let plen = prefix.as_str().unicode_len();
    let ghost fpred = |v: MarkdownFileView| listed_file(v.name, p);
    let mut files: Vec<MarkdownFile> = Vec::new();
    let mut dir_names: Vec<String> = Vec::new();
    let mut i: usize = 0;
    proof {
        assert(mf_views(all_files@.take(0)) =~~= Seq::<MarkdownFileView>::empty());
        assert(Seq::<MarkdownFileView>::empty().filter(fpred)
            =~~= Seq::<MarkdownFileView>::empty()) by {
            reveal(Seq::filter);
        }
        assert(mf_views(files@) =~~= Seq::<MarkdownFileView>::empty());
    }
    while i < all_files.len()
        invariant
            i <= all_files@.len(),
            plen == listing_prefix(p).len(),
            prefix@ == listing_prefix(p),
            fpred == (|v: MarkdownFileView| listed_file(v.name, p)),
            sorted_le(files@),
            mf_views(files@).to_multiset() == mf_views(all_files@.take(i as int)).filter(
                fpred,
            ).to_multiset(),
            names_sorted(dir_names@),
            forall|d: Seq<char>|
                #[trigger] names_have(dir_names@, d) <==> some_listed_dir(
                    all_files@.take(i as int),
                    p,
                    d,
                ),
        decreases all_files@.len() - i,
    {
        broadcast use vstd::seq_lib::to_multiset_build;

        let entry = &all_files[i];
        let name_len = entry.name.as_str().unicode_len();
        let ghost n = entry.name@;
        let ghost pre = mf_views(all_files@.take(i as int));
        let ghost now = mf_views(all_files@.take(i as int + 1));
        proof {
            assert(now =~~= pre.push(entry@));
            Seq::<MarkdownFileView>::filter_distributes_over_add(pre, seq![entry@], fpred);
            assert(pre + seq![entry@] =~~= now);
            assert(seq![entry@].filter(fpred) =~~= if fpred(entry@) {
                seq![entry@]
            } else {
                Seq::<MarkdownFileView>::empty()
            }) by {
                reveal_with_fuel(Seq::filter, 2);
                assert(seq![entry@].drop_last() =~~= Seq::<MarkdownFileView>::empty());
            }
            assert(all_files@.take(i as int + 1) =~~= all_files@.take(i as int).push(
                all_files@[i as int],
            ));
        }
        if str_starts_with(entry.name.as_str(), prefix.as_str()) && name_len > plen {
            let ghost rem = rem_of(n, p);
            proof {
                assert(rem =~= n.skip(plen as int));
            }
            match find_first_slash_from(entry.name.as_str(), plen) {
                Some(k_abs) => {
                    let d = entry.name.as_str().substring_char(plen, k_abs).to_owned();
                    proof {
                        assert(first_slash_at(rem, k_abs - plen)) by {
                            assert(rem[k_abs - plen] == n[k_abs as int]);
                            assert(forall|m: int|
                                0 <= m < k_abs - plen ==> #[trigger] rem[m] == n[m + plen]);
                        }
                        assert(d@ =~= rem.take(k_abs - plen));
                        assert(listed_dir(n, p, d@));
                        assert(!listed_file(n, p)) by {
                            assert(rem[k_abs - plen] == '/');
                            assert(rem.contains('/'));
                        }
                        assert(forall|x: Seq<char>|
                            #[trigger] listed_dir(n, p, x) ==> x == d@) by {
                            assert forall|x: Seq<char>| #[trigger]
                                listed_dir(n, p, x) implies x == d@ by {
                                let k2 = choose|k2: int|
                                    #[trigger] first_slash_at(rem, k2) && x == rem.take(k2);
                                lemma_first_slash_unique(rem, k2, k_abs - plen);
                            }
                        }
                    }
                    let ghost old_names = dir_names@;
                    insert_unique_sorted(&mut dir_names, d);
                    proof {
                        assert(mf_views(files@).to_multiset() == now.filter(
                            fpred,
                        ).to_multiset()) by {
                            assert(!fpred(entry@));
                            assert(now.filter(fpred) =~~= pre.filter(fpred));
                        }
                        assert forall|x: Seq<char>| #[trigger]
                            names_have(dir_names@, x) <==> some_listed_dir(
                            all_files@.take(i as int + 1),
                            p,
                            x,
                        ) by {
                            let cur = all_files@.take(i as int + 1);
                            if names_have(dir_names@, x) {
                                if names_have(old_names, x) {
                                    let w = choose|q: int|
                                        0 <= q < all_files@.take(i as int).len()
                                            && #[trigger] listed_dir(
                                            all_files@.take(i as int)[q].name@,
                                            p,
                                            x,
                                        );
                                    assert(listed_dir(cur[w].name@, p, x));
                                } else {
                                    assert(x == d@);
                                    assert(listed_dir(cur[i as int].name@, p, x));
                                }
                            }
                            if some_listed_dir(cur, p, x) {
                                let w = choose|q: int|
                                    0 <= q < cur.len() && #[trigger] listed_dir(
                                        cur[q].name@,
                                        p,
                                        x,
                                    );
                                if w < i {
                                    assert(listed_dir(
                                        all_files@.take(i as int)[w].name@,
                                        p,
                                        x,
                                    ));
                                    assert(names_have(old_names, x));
                                } else {
                                    assert(x == d@);
                                }
                            }
                        }
                    }
                },
                None => {
                    proof {
                        assert(listed_file(n, p)) by {
                            assert(forall|m: int|
                                0 <= m < rem.len() ==> #[trigger] rem[m] == n[m + plen]);
                            assert(!rem.contains('/'));
                        }
                        assert(fpred(entry@));
                        assert(forall|x: Seq<char>| !listed_dir(n, p, x)) by {
                            assert forall|x: Seq<char>| !listed_dir(n, p, x) by {
                                if listed_dir(n, p, x) {
                                    let k2 = choose|k2: int|
                                        #[trigger] first_slash_at(rem, k2) && x == rem.take(
                                            k2,
                                        );
                                    assert(rem[k2] == '/');
                                    assert(rem.contains('/'));
                                }
                            }
                        }
                    }
                    insert_sorted(&mut files, entry.duplicate());
                    proof {
                        assert(now.filter(fpred) =~~= pre.filter(fpred).push(entry@));
                        assert(mf_views(files@).to_multiset() =~~= now.filter(
                            fpred,
                        ).to_multiset());
                        assert forall|x: Seq<char>| #[trigger]
                            names_have(dir_names@, x) <==> some_listed_dir(
                            all_files@.take(i as int + 1),
                            p,
                            x,
                        ) by {
                            let cur = all_files@.take(i as int + 1);
                            if names_have(dir_names@, x) {
                                let w = choose|q: int|
                                    0 <= q < all_files@.take(i as int).len()
                                        && #[trigger] listed_dir(
                                        all_files@.take(i as int)[q].name@,
                                        p,
                                        x,
                                    );
                                assert(listed_dir(cur[w].name@, p, x));
                            }
                            if some_listed_dir(cur, p, x) {
                                let w = choose|q: int|
                                    0 <= q < cur.len() && #[trigger] listed_dir(
                                        cur[q].name@,
                                        p,
                                        x,
                                    );
                                assert(w < i);
                                assert(listed_dir(all_files@.take(i as int)[w].name@, p, x));
                            }
                        }
                    }
                },
            }
        } else {
            proof {
                assert(!listed_file(n, p)) by {
                    if name_len > plen {
                        assert(!is_prefix(listing_prefix(p), n));
                    }
                }
                assert(!fpred(entry@));
                assert(now.filter(fpred) =~~= pre.filter(fpred));
                assert(forall|x: Seq<char>| !listed_dir(n, p, x)) by {
                    assert forall|x: Seq<char>| !listed_dir(n, p, x) by {
                        if listed_dir(n, p, x) {
                            let k2 = choose|k2: int|
                                #[trigger] first_slash_at(rem_of(n, p), k2) && x == rem_of(
                                    n,
                                    p,
                                ).take(k2);
                            assert(rem_of(n, p).len() > 0);
                            assert(n.len() > listing_prefix(p).len());
                            assert(is_prefix(listing_prefix(p), n));
                        }
                    }
                }
                assert forall|x: Seq<char>| #[trigger]
                    names_have(dir_names@, x) <==> some_listed_dir(
                    all_files@.take(i as int + 1),
                    p,
                    x,
                ) by {
                    let cur = all_files@.take(i as int + 1);
                    if names_have(dir_names@, x) {
                        let w = choose|q: int|
                            0 <= q < all_files@.take(i as int).len() && #[trigger] listed_dir(
                                all_files@.take(i as int)[q].name@,
                                p,
                                x,
                            );
                        assert(listed_dir(cur[w].name@, p, x));
                    }
                    if some_listed_dir(cur, p, x) {
                        let w = choose|q: int|
                            0 <= q < cur.len() && #[trigger] listed_dir(cur[q].name@, p, x);
                        assert(w < i);
                        assert(listed_dir(all_files@.take(i as int)[w].name@, p, x));
                    }
                }
            }
        }
        i = i + 1;
    }
    proof {
        assert(all_files@.take(all_files@.len() as int) =~~= all_files@);
    }
    let mut directories: Vec<DirectoryEntry> = Vec::new();
    let mut t: usize = 0;
    while t < dir_names.len()
        invariant
            t <= dir_names@.len(),
            nlen == normalized@.len(),
            normalized@ == trim_slashes(current_path@),
            directories@.len() == t,
            forall|q: int|
                0 <= q < t ==> #[trigger] directories@[q].name@ == dir_names@[q]@
                    && directories@[q].path@ == child_path(
                    trim_slashes(current_path@),
                    dir_names@[q]@,
                ),
        decreases dir_names@.len() - t,
    {
        let dname = dir_names[t].clone();
        let dpath: String = if nlen == 0 {
            dname.clone()
        } else {
            let mut s = normalized.clone();
            s.append("/");
            s.append(dname.as_str());
            s
        };
        proof {
            reveal_strlit("/");
            if nlen > 0 {
                assert("/"@ =~= seq!['/']);
            }
            assert(dpath@ == child_path(trim_slashes(current_path@), dname@));
        }
        let ghost old_dirs = directories@;
        let ghost gname = dname@;
        let ghost gpath = dpath@;
        directories.push(DirectoryEntry { name: dname, path: dpath });
        proof {
            assert(forall|q: int| 0 <= q < t ==> directories@[q] == #[trigger] old_dirs[q]);
            assert(directories@[t as int].name@ == gname);
            assert(directories@[t as int].path@ == gpath);
            assert(gname == dir_names@[t as int]@);
        }
        t = t + 1;
    }
    proof {
        assert(dirs_sorted(directories@));
        assert forall|d: Seq<char>| #[trigger]
            dirs_have(directories@, d) <==> names_have(dir_names@, d) by {
            if dirs_have(directories@, d) {
                let w = choose|q: int|
                    0 <= q < directories@.len() && #[trigger] directories@[q].name@ == d;
                assert(dir_names@[w]@ == d);
            }
            if names_have(dir_names@, d) {
                let w = choose|q: int|
                    0 <= q < dir_names@.len() && #[trigger] dir_names@[q]@ == d;
                assert(directories@[w].name@ == d);
            }
        }
    }
    let parent: Option<String> = if nlen == 0 {
        None
    } else {
        let bs = find_base_name_start(normalized.as_str());
        if bs == 0 {
            proof {
                if normalized@.contains('/') {
                    lemma_exists_last_slash(normalized@);
                    let k = choose|k: int| crate::strings::last_slash_at(normalized@, k);
                    assert(base_name_start(normalized@) == k + 1);
                    assert(false);
                }
                assert(parent_of(normalized@) =~= Seq::<char>::empty());
            }
            Some(String::new())
        } else {
            proof {
                assert(normalized@.contains('/')) by {
                    if !normalized@.contains('/') {
                        assert(base_name_start(normalized@) == 0);
                    }
                }
            }
            Some(normalized.as_str().substring_char(0, bs - 1).to_owned())
        }
    };
    DirectoryListing { current_path: normalized, parent, directories, files }
}

/// The invariant of a logical path: nonempty, forward slashes only as
/// separators, no empty segments.
pub open spec fn wf_logical_path(n: Seq<char>) -> bool {
    &&& n.len() > 0
    &&& n[0] != '/'
    &&& n.last() != '/'
    &&& forall|i: int| 0 <= i && i + 1 < n.len() ==> !(#[trigger] n[i] == '/' && n[i + 1] == '/')
}

proof fn lemma_listed_file_facts(n: Seq<char>, p: Seq<char>)
    requires
        listed_file(n, p),
        p.len() > 0,
    ensures
        n.len() > p.len() + 1,
        n[p.len() as int] == '/',
        forall|m: int| p.len() < m < n.len() ==> n[m] != '/',
        n.take(p.len() as int) == p,
{
    let pre = listing_prefix(p);
    assert(pre.len() == p.len() + 1);
    assert(n.subrange(0, pre.len() as int) == pre);
    assert(n[p.len() as int] == n.subrange(0, pre.len() as int)[p.len() as int]);
    assert(pre[p.len() as int] == '/');
    assert(n.take(p.len() as int) =~= p) by {
        assert(forall|m: int|
            0 <= m < p.len() ==> #[trigger] n.subrange(0, pre.len() as int)[m] == pre[m]);
    }
    let rem = rem_of(n, p);
    assert forall|m: int| p.len() < m < n.len() implies n[m] != '/' by {
        assert(rem[m - pre.len()] == n[m]);
        if n[m] == '/' {
            assert(rem.contains('/')) by {
                assert(rem[m - pre.len()] == '/');
            }
        }
    }
}

/// A logical path is an immediate file of at most one directory: the file
/// sets that two listings report are disjoint whenever their paths differ.
pub proof fn lemma_listed_file_disjoint(n: Seq<char>, p1: Seq<char>, p2: Seq<char>)
    requires
        listed_file(n, p1),
        listed_file(n, p2),
    ensures
        p1 == p2,
{
    if p1.len() == 0 && p2.len() == 0 {
        assert(p1 =~= p2);
    } else if p1.len() == 0 {
        assert(rem_of(n, p1) =~= n);
        lemma_listed_file_facts(n, p2);
        assert(n.contains('/')) by {
            assert(n[p2.len() as int] == '/');
        }
        assert(false);
    } else if p2.len() == 0 {
        assert(rem_of(n, p2) =~= n);
        lemma_listed_file_facts(n, p1);
        assert(n.contains('/')) by {
            assert(n[p1.len() as int] == '/');
        }
        assert(false);
    } else {
        lemma_listed_file_facts(n, p1);
        lemma_listed_file_facts(n, p2);
        if p1.len() < p2.len() {
            assert(n[p2.len() as int] == '/');
            assert(false);
        } else if p2.len() < p1.len() {
            assert(n[p1.len() as int] == '/');
            assert(false);
        } else {
            assert(p1 =~= p2) by {
                assert(n.take(p1.len() as int) == p1);
                assert(n.take(p2.len() as int) == p2);
            }
        }
    }
}

/// A well-formed logical path is an immediate file of exactly its parent
/// directory: the file sets reported across all paths together cover the
/// whole index.
pub proof fn lemma_listed_file_cover(n: Seq<char>)
    requires
        wf_logical_path(n),
    ensures
        listed_file(n, parent_of(n)),
{
    if n.contains('/') {
        lemma_exists_last_slash(n);
        let k = choose|k: int| crate::strings::last_slash_at(n, k);
        assert(base_name_start(n) == k + 1);
        let parent = parent_of(n);
        assert(parent =~= n.take(k));
        assert(k >= 1) by {
            if k == 0 {
                assert(n[0] == '/');
            }
        }
        let pre = listing_prefix(parent);
        assert(pre =~= n.take(k + 1)) by {
            assert(forall|m: int| 0 <= m < k ==> #[trigger] pre[m] == n.take(k)[m]);
            assert(pre[k] == '/');
            assert(n[k] == '/');
        }
        assert(is_prefix(pre, n)) by {
            assert(n.subrange(0, k + 1) =~= n.take(k + 1));
        }
        assert(n.len() > k + 1) by {
            if k == n.len() - 1 {
                assert(n.last() == '/');
            }
        }
        let rem = rem_of(n, parent);
        assert(!rem.contains('/')) by {
            if rem.contains('/') {
                let x = choose|x: int| 0 <= x < rem.len() && rem[x] == '/';
                assert(n[x + k + 1] == '/');
            }
        }
    } else {
        let parent = parent_of(n);
        assert(parent.len() == 0);
        assert(listing_prefix(parent) == parent);
        assert(is_prefix(parent, n)) by {
            assert(n.subrange(0, 0) =~= parent);
        }
        assert(rem_of(n, parent) =~= n);
    }
}

/// The partition law of listings, over the very terms in the view builder's
/// contract: the file sets that two listings report are disjoint whenever
/// their (normalized) paths differ...
pub proof fn lemma_listing_files_disjoint(
    files: Seq<MarkdownFile>,
    p1: Seq<char>,
    p2: Seq<char>,
    v: MarkdownFileView,
)
    requires
        p1 != p2,
        mf_views(files).filter(|v: MarkdownFileView| listed_file(v.name, p1)).contains(v),
    ensures
        !mf_views(files).filter(|v: MarkdownFileView| listed_file(v.name, p2)).contains(v),
{
    broadcast use vstd::prelude::Seq::lemma_filter_pred;

    let f1 = mf_views(files).filter(|v: MarkdownFileView| listed_file(v.name, p1));
    let f2 = mf_views(files).filter(|v: MarkdownFileView| listed_file(v.name, p2));
    let w1 = choose|i: int| 0 <= i < f1.len() && f1[i] == v;
    assert(listed_file(v.name, p1));
    if f2.contains(v) {
        let w2 = choose|i: int| 0 <= i < f2.len() && f2[i] == v;
        assert(listed_file(v.name, p2));
        lemma_listed_file_disjoint(v.name, p1, p2);
    }
}

/// ...and every entry with a well-formed logical path is reported by the
/// listing of its parent directory, so the listings over all paths together
/// cover the whole index.
pub proof fn lemma_listing_files_cover(files: Seq<MarkdownFile>, i: int)
    requires
        0 <= i < files.len(),
        wf_logical_path(files[i].name@),
    ensures
        mf_views(files).filter(
            |v: MarkdownFileView| listed_file(v.name, parent_of(files[i].name@)),
        ).contains(files[i]@),
{
    broadcast use vstd::prelude::Seq::lemma_filter_contains;

    lemma_listed_file_cover(files[i].name@);
    assert(mf_views(files)[i] == files[i]@);
    let pred = |v: MarkdownFileView| listed_file(v.name, parent_of(files[i].name@));
    assert(pred(mf_views(files)[i]));
    assert(mf_views(files).filter(pred).contains(mf_views(files)[i]));
}

/// Every nonempty run of slash-free text ending the string has a last slash
/// before it when the string contains a slash at all.
proof fn lemma_exists_last_slash(s: Seq<char>)
    requires
        s.contains('/'),
    ensures
        exists|k: int| crate::strings::last_slash_at(s, k),
    decreases s.len(),
{
    if s.last() == '/' {
        assert(crate::strings::last_slash_at(s, s.len() - 1));
    } else {
        let w = choose|m: int| 0 <= m < s.len() && s[m] == '/';
        assert(s.drop_last().contains('/')) by {
            assert(s.drop_last()[w] == '/');
        }
        lemma_exists_last_slash(s.drop_last());
        let k = choose|k: int| crate::strings::last_slash_at(s.drop_last(), k);
        assert(s[k] == s.drop_last()[k]);
        assert forall|m: int| k < m < s.len() implies s[m] != '/' by {
            if m < s.len() - 1 {
                assert(s.drop_last()[m] != '/');
                assert(s[m] == s.drop_last()[m]);
            } else {
                assert(s[m] == s.last());
            }
        }
        assert(crate::strings::last_slash_at(s, k));
    }
}

} // verus!
