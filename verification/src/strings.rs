//! Verified building blocks for the string work the library does everywhere:
//! character-wise equality, prefixes and suffixes, lexicographic order,
//! splitting and joining on a separator, and ASCII case folding.

use vstd::prelude::*;

verus! {

/// `pre` is a prefix of `s`.
pub open spec fn is_prefix(pre: Seq<char>, s: Seq<char>) -> bool {
    pre.len() <= s.len() && s.subrange(0, pre.len() as int) == pre
}

/// `suf` is a suffix of `s`.
pub open spec fn is_suffix(suf: Seq<char>, s: Seq<char>) -> bool {
    suf.len() <= s.len() && s.subrange(s.len() - suf.len(), s.len() as int) == suf
}

/// ASCII-only lower-casing of one character.
pub open spec fn lower_char(c: char) -> char {
    if 'A' <= c && c <= 'Z' {
        ((c as u8) + 32) as char
    } else {
        c
    }
}

/// ASCII-only lower-casing of a character sequence.
pub open spec fn lower(s: Seq<char>) -> Seq<char> {
    s.map_values(|c: char| lower_char(c))
}

/// Character-wise equality of two string slices.
pub fn str_eq(a: &str, b: &str) -> (r: bool)
    ensures
        r == (a@ == b@),
{
    let alen = a.unicode_len();
    let blen = b.unicode_len();
    if alen != blen {
        assert(a@ != b@) by {
            assert(a@.len() != b@.len());
        }
        return false;
    }
    let mut i: usize = 0;
    while i < alen
        invariant
            i <= alen,
            alen == a@.len(),
            alen == b@.len(),
            forall|j: int| 0 <= j < i ==> a@[j] == b@[j],
        decreases alen - i,
    {
        if a.get_char(i) != b.get_char(i) {
            return false;
        }
        i = i + 1;
    }
    proof {
        assert(a@ =~= b@);
    }
    true
}

/// Character-wise prefix test.
pub fn str_starts_with(s: &str, pre: &str) -> (r: bool)
    ensures
        r == is_prefix(pre@, s@),
{
    let slen = s.unicode_len();
    let plen = pre.unicode_len();
    if plen > slen {
        return false;
    }
    let mut i: usize = 0;
    while i < plen
        invariant
            i <= plen,
            plen == pre@.len(),
            slen == s@.len(),
            plen <= slen,
            forall|j: int| 0 <= j < i ==> s@[j] == pre@[j],
        decreases plen - i,
    {
        if s.get_char(i) != pre.get_char(i) {
            assert(!is_prefix(pre@, s@)) by {
                assert(s@.subrange(0, pre@.len() as int)[i as int] == s@[i as int]);
            }
            return false;
        }
        i = i + 1;
    }
    proof {
        assert(s@.subrange(0, pre@.len() as int) =~= pre@);
    }
    true
}

/// Suffix test under ASCII case folding; `suf` is compared as given.
pub fn str_ends_with_lower(s: &str, suf: &str) -> (r: bool)
    ensures
        r == is_suffix(suf@, lower(s@)),
{
    let slen = s.unicode_len();
    let flen = suf.unicode_len();
    if flen > slen {
        return false;
    }
    let offset = slen - flen;
    let mut i: usize = 0;
    while i < flen
        invariant
            i <= flen,
            flen == suf@.len(),
            slen == s@.len(),
            offset == slen - flen,
            forall|j: int| 0 <= j < i ==> lower(s@)[offset + j] == suf@[j],
        decreases flen - i,
    {
        let c = s.get_char(offset + i);
        let lc = lower_ascii_char(c);
        if lc != suf.get_char(i) {
            assert(!is_suffix(suf@, lower(s@))) by {
                assert(lower(s@).subrange(
                    lower(s@).len() - suf@.len(),
                    lower(s@).len() as int,
                )[i as int] == lower(s@)[offset + i]);
                assert(lower(s@)[offset + i] == lower_char(s@[offset + i]));
            }
            return false;
        }
        assert(lower(s@)[offset + i] == lower_char(s@[offset + i]));
        i = i + 1;
    }
    proof {
        assert(lower(s@).subrange(lower(s@).len() - suf@.len(), lower(s@).len() as int)
            =~= suf@);
    }
    true
}

/// ASCII lower-casing of one character.
pub fn lower_ascii_char(c: char) -> (r: char)
    ensures
        r == lower_char(c),
{
    if 'A' <= c && c <= 'Z' {
        (((c as u8) + 32) as char)
    } else {
        c
    }
}

/// Every backslash replaced by a forward slash.
pub open spec fn norm_slashes(s: Seq<char>) -> Seq<char> {
    s.map_values(|c: char| if c == '\\' { '/' } else { c })
}

/// Replace every backslash in `s` by a forward slash.
pub fn normalize_separators(s: &str) -> (r: String)
    ensures
        r@ == norm_slashes(s@),
{
    let len = s.unicode_len();
    let mut r = String::new();
    let mut start: usize = 0;
    let mut i: usize = 0;
    while i < len
        invariant
            start <= i <= len,
            len == s@.len(),
            forall|j: int| start <= j < i ==> s@[j] != '\\',
            r@ == norm_slashes(s@.subrange(0, start as int)),
        decreases len - i,
    {
        let c = s.get_char(i);
        if c == '\\' {
            let chunk = s.substring_char(start, i);
            r.append(chunk);
            r.append("/");
            proof {
                reveal_strlit("/");
                assert(norm_slashes(s@.subrange(start as int, i as int)) =~= s@.subrange(
                    start as int,
                    i as int,
                ));
                assert(norm_slashes(s@.subrange(0, i as int + 1)) =~= norm_slashes(
                    s@.subrange(0, start as int),
                ) + s@.subrange(start as int, i as int) + seq!['/']);
            }
            i = i + 1;
            start = i;
        } else {
            i = i + 1;
        }
    }
    let chunk = s.substring_char(start, len);
    r.append(chunk);
    proof {
        assert(norm_slashes(s@.subrange(start as int, len as int)) =~= s@.subrange(
            start as int,
            len as int,
        ));
        assert(norm_slashes(s@) =~= norm_slashes(s@.subrange(0, start as int)) + s@.subrange(
            start as int,
            len as int,
        ));
    }
    r
}

/// The characters of a sequence of ASCII bytes.
pub open spec fn chars_of_bytes(bs: Seq<u8>) -> Seq<char> {
    bs.map_values(|b: u8| b as char)
}

/// Relies on std's `String::from_utf8`: bytes below 128 are valid UTF-8 and
/// decode to exactly those characters.
#[verifier::external_body]
pub(crate) fn ascii_string_from_bytes(bytes: Vec<u8>) -> (r: String)
    requires
        forall|i: int| 0 <= i < bytes@.len() ==> bytes@[i] < 128,
    ensures
        r@ == chars_of_bytes(bytes@),
{
    match String::from_utf8(bytes) {
        Ok(s) => s,
        Err(_) => String::new(),
    }
}

/// The views of a sequence of owned strings.
pub open spec fn views_of(v: Seq<String>) -> Seq<Seq<char>> {
    v.map_values(|t: String| t@)
}

/// Split `s` at every occurrence of `sep`. Splitting the empty string gives
/// one empty part; `n` separators give `n + 1` parts.
pub open spec fn split_on(s: Seq<char>, sep: char) -> Seq<Seq<char>>
    decreases s.len(),
{
    if s.len() == 0 {
        seq![Seq::<char>::empty()]
    } else if s[0] == sep {
        seq![Seq::<char>::empty()] + split_on(s.drop_first(), sep)
    } else {
        let rest = split_on(s.drop_first(), sep);
        seq![seq![s[0]] + rest[0]] + rest.drop_first()
    }
}

pub proof fn lemma_split_on_len(s: Seq<char>, sep: char)
    ensures
        split_on(s, sep).len() >= 1,
    decreases s.len(),
{
    if s.len() > 0 {
        lemma_split_on_len(s.drop_first(), sep);
    }
}

/// Join the parts with `sep` between each two neighbours.
pub open spec fn join_on(parts: Seq<Seq<char>>, sep: char) -> Seq<char>
    decreases parts.len(),
{
    if parts.len() == 0 {
        Seq::empty()
    } else if parts.len() == 1 {
        parts[0]
    } else {
        parts[0] + seq![sep] + join_on(parts.drop_first(), sep)
    }
}

pub proof fn lemma_join_on_push(parts: Seq<Seq<char>>, sep: char, x: Seq<char>)
    ensures
        join_on(parts.push(x), sep) == if parts.len() == 0 {
            x
        } else {
            join_on(parts, sep) + seq![sep] + x
        },
    decreases parts.len(),
{
    let p2 = parts.push(x);
    if parts.len() == 0 {
        assert(p2.len() == 1);
        assert(p2[0] == x);
    } else if parts.len() == 1 {
        assert(p2.len() == 2);
        assert(p2.drop_first() =~= seq![x]);
        assert(join_on(seq![x], sep) == x);
        assert(join_on(p2, sep) == p2[0] + seq![sep] + join_on(p2.drop_first(), sep));
        assert(p2[0] == parts[0]);
        assert(join_on(parts, sep) == parts[0]);
    } else {
        lemma_join_on_push(parts.drop_first(), sep, x);
        assert(p2.drop_first() =~= parts.drop_first().push(x));
        assert(join_on(p2, sep) == p2[0] + seq![sep] + join_on(p2.drop_first(), sep));
        assert(join_on(p2.drop_first(), sep) == join_on(parts.drop_first(), sep) + seq![sep]
            + x);
        assert(p2[0] + seq![sep] + (join_on(parts.drop_first(), sep) + seq![sep] + x) =~= (
        parts[0] + seq![sep] + join_on(parts.drop_first(), sep)) + seq![sep] + x);
    }
}

/// The shape that `split_on(s, sep)` takes while a scan is part-way through
/// the current part: the finished parts, then the current part extended by
/// whatever the rest of the string yields.
spec fn split_scan(cur: Seq<char>, rest: Seq<Seq<char>>) -> Seq<Seq<char>> {
    seq![cur + rest[0]] + rest.drop_first()
}

/// Split an owned copy of `s` at every `/`.
pub fn split_slash(s: &str) -> (r: Vec<String>)
    ensures
        views_of(r@) == split_on(s@, '/'),
{
    let len = s.unicode_len();
    let mut parts: Vec<String> = Vec::new();
    let mut start: usize = 0;
    let mut i: usize = 0;
    proof {
        lemma_split_on_len(s@, '/');
        let rest = split_on(s@, '/');
        assert(s@.skip(0) =~= s@);
        assert(views_of(parts@) =~~= Seq::<Seq<char>>::empty());
        assert(s@.subrange(0, 0) + rest[0] =~= rest[0]);
        assert(split_scan(s@.subrange(0, 0), rest) =~~= rest);
    }
    while i < len
        invariant
            start <= i <= len,
            len == s@.len(),
            split_on(s@, '/') =~~= views_of(parts@) + split_scan(
                s@.subrange(start as int, i as int),
                split_on(s@.skip(i as int), '/'),
            ),
        decreases len - i,
    {
        let ghost rest_i = split_on(s@.skip(i as int), '/');
        let ghost rest_n = split_on(s@.skip(i as int + 1), '/');
        proof {
            lemma_split_on_len(s@.skip(i as int + 1), '/');
            assert(s@.skip(i as int).len() > 0);
            assert(s@.skip(i as int)[0] == s@[i as int]);
            assert(s@.skip(i as int).drop_first() =~= s@.skip(i as int + 1));
        }
        let c = s.get_char(i);
        if c == '/' {
            proof {
                assert(rest_i =~~= seq![Seq::<char>::empty()] + rest_n);
            }
            let seg = s.substring_char(start, i).to_owned();
            let ghost old_parts = parts@;
            parts.push(seg);
            proof {
                assert(views_of(parts@) =~~= views_of(old_parts).push(seg@));
                let cur = s@.subrange(start as int, i as int);
                assert(cur + rest_i[0] =~= cur);
                assert(rest_i.drop_first() =~= rest_n);
                assert(split_scan(cur, rest_i) =~~= seq![cur] + rest_n);
                let cur2 = s@.subrange(i as int + 1, i as int + 1);
                assert(cur2 + rest_n[0] =~= rest_n[0]);
                assert(split_scan(cur2, rest_n) =~~= rest_n);
                assert(views_of(old_parts) + split_scan(cur, rest_i) =~~= views_of(parts@)
                    + split_scan(cur2, rest_n));
            }
            i = i + 1;
            start = i;
        } else {
            proof {
                assert(rest_i =~~= seq![seq![s@[i as int]] + rest_n[0]] + rest_n.drop_first());
                let cur = s@.subrange(start as int, i as int);
                let cur2 = s@.subrange(start as int, i as int + 1);
                assert(cur2 =~= cur + seq![s@[i as int]]);
                assert(cur + rest_i[0] =~= cur2 + rest_n[0]);
                assert(rest_i.drop_first() =~= rest_n.drop_first());
                assert(split_scan(cur, rest_i) =~~= split_scan(cur2, rest_n));
            }
            i = i + 1;
        }
    }
    proof {
        assert(s@.skip(len as int) =~= Seq::<char>::empty());
        let rest = split_on(s@.skip(len as int), '/');
        assert(rest =~~= seq![Seq::<char>::empty()]);
        let cur = s@.subrange(start as int, len as int);
        assert(cur + rest[0] =~= cur);
        assert(split_scan(cur, rest) =~~= seq![cur]);
    }
    let seg = s.substring_char(start, len).to_owned();
    let ghost old_parts = parts@;
    parts.push(seg);
    proof {
        assert(views_of(parts@) =~~= views_of(old_parts).push(seg@));
        assert(views_of(old_parts) + split_scan(
            s@.subrange(start as int, len as int),
            split_on(s@.skip(len as int), '/'),
        ) =~~= views_of(parts@));
    }
    parts
}

/// Lexicographic order on character sequences, by code point, shorter
/// prefixes first: the order in which the index keeps logical paths.
pub open spec fn lex_le(a: Seq<char>, b: Seq<char>) -> bool
    decreases a.len(),
{
    if a.len() == 0 {
        true
    } else if b.len() == 0 {
        false
    } else if a[0] == b[0] {
        lex_le(a.drop_first(), b.drop_first())
    } else {
        a[0] < b[0]
    }
}

/// Strict lexicographic order.
pub open spec fn lex_lt(a: Seq<char>, b: Seq<char>) -> bool {
    lex_le(a, b) && a != b
}

pub proof fn lemma_lex_total(a: Seq<char>, b: Seq<char>)
    ensures
        lex_le(a, b) || lex_le(b, a),
    decreases a.len(),
{
    if a.len() > 0 && b.len() > 0 && a[0] == b[0] {
        lemma_lex_total(a.drop_first(), b.drop_first());
    }
}

pub proof fn lemma_lex_antisymmetric(a: Seq<char>, b: Seq<char>)
    requires
        lex_le(a, b),
        lex_le(b, a),
    ensures
        a == b,
    decreases a.len(),
{
    if a.len() == 0 {
        assert(b.len() == 0);
        assert(a =~= b);
    } else {
        assert(b.len() > 0);
        assert(a[0] == b[0]);
        lemma_lex_antisymmetric(a.drop_first(), b.drop_first());
        assert(a =~= seq![a[0]] + a.drop_first());
        assert(b =~= seq![b[0]] + b.drop_first());
        assert(a == b);
    }
}

pub proof fn lemma_lex_transitive(a: Seq<char>, b: Seq<char>, c: Seq<char>)
    requires
        lex_le(a, b),
        lex_le(b, c),
    ensures
        lex_le(a, c),
    decreases a.len(),
{
    if a.len() > 0 && b.len() > 0 && c.len() > 0 && a[0] == b[0] && b[0] == c[0] {
        lemma_lex_transitive(a.drop_first(), b.drop_first(), c.drop_first());
    }
}

pub proof fn lemma_lex_lt_transitive(a: Seq<char>, b: Seq<char>, c: Seq<char>)
    requires
        lex_lt(a, b),
        lex_lt(b, c),
    ensures
        lex_lt(a, c),
{
    lemma_lex_transitive(a, b, c);
    if a == c {
        lemma_lex_antisymmetric(a, b);
    }
}

proof fn lemma_lex_skip(a: Seq<char>, b: Seq<char>, i: int)
    requires
        0 <= i <= a.len(),
        i <= b.len(),
        forall|j: int| 0 <= j < i ==> a[j] == b[j],
    ensures
        lex_le(a, b) == lex_le(a.skip(i), b.skip(i)),
    decreases i,
{
    if i == 0 {
        assert(a.skip(0) =~= a);
        assert(b.skip(0) =~= b);
    } else {
        assert(a.len() > 0 && b.len() > 0 && a[0] == b[0]);
        assert(forall|j: int|
            0 <= j < i - 1 ==> #[trigger] a.drop_first()[j] == b.drop_first()[j]);
        lemma_lex_skip(a.drop_first(), b.drop_first(), i - 1);
        assert(a.drop_first().skip(i - 1) =~= a.skip(i));
        assert(b.drop_first().skip(i - 1) =~= b.skip(i));
    }
}

/// Decide the lexicographic order on two string slices.
pub fn str_lex_le(a: &str, b: &str) -> (r: bool)
    ensures
        r == lex_le(a@, b@),
{
    let alen = a.unicode_len();
    let blen = b.unicode_len();
    let min = if alen < blen {
        alen
    } else {
        blen
    };
    let mut i: usize = 0;
    while i < min
        invariant
            i <= min,
            alen == a@.len(),
            blen == b@.len(),
            min == if alen < blen {
                alen
            } else {
                blen
            },
            forall|j: int| 0 <= j < i ==> a@[j] == b@[j],
        decreases min - i,
    {
        let ca = a.get_char(i);
        let cb = b.get_char(i);
        if ca != cb {
            proof {
                lemma_lex_skip(a@, b@, i as int);
                assert(a@.skip(i as int)[0] == a@[i as int]);
                assert(b@.skip(i as int)[0] == b@[i as int]);
            }
            return ca < cb;
        }
        i = i + 1;
    }
    proof {
        lemma_lex_skip(a@, b@, min as int);
        if alen <= blen {
            assert(a@.skip(min as int).len() == 0);
        } else {
            assert(b@.skip(min as int).len() == 0);
            assert(a@.skip(min as int).len() > 0);
        }
    }
    alen <= blen
}

/// Leading slashes removed.
pub open spec fn trim_leading_slashes(s: Seq<char>) -> Seq<char>
    decreases s.len(),
{
    if s.len() > 0 && s[0] == '/' {
        trim_leading_slashes(s.drop_first())
    } else {
        s
    }
}

/// Trailing slashes removed.
pub open spec fn trim_trailing_slashes(s: Seq<char>) -> Seq<char>
    decreases s.len(),
{
    if s.len() > 0 && s.last() == '/' {
        trim_trailing_slashes(s.drop_last())
    } else {
        s
    }
}

/// Leading and trailing slashes removed.
pub open spec fn trim_slashes(s: Seq<char>) -> Seq<char> {
    trim_trailing_slashes(trim_leading_slashes(s))
}

/// Remove leading and trailing slashes from `s`.
pub fn str_trim_slashes(s: &str) -> (r: String)
    ensures
        r@ == trim_slashes(s@),
{
    let len = s.unicode_len();
    let mut a: usize = 0;
    proof {
        assert(s@.skip(0) =~= s@);
    }
    while a < len && s.get_char(a) == '/'
        invariant
            a <= len,
            len == s@.len(),
            trim_leading_slashes(s@) == trim_leading_slashes(s@.skip(a as int)),
        decreases len - a,
    {
        proof {
            assert(s@.skip(a as int).len() > 0);
            assert(s@.skip(a as int)[0] == s@[a as int]);
            assert(s@.skip(a as int).drop_first() =~= s@.skip(a as int + 1));
        }
        a = a + 1;
    }
    proof {
        if a < len {
            assert(s@.skip(a as int)[0] == s@[a as int]);
        }
        assert(trim_leading_slashes(s@) == s@.skip(a as int));
        assert(s@.subrange(a as int, len as int) =~= s@.skip(a as int));
    }
    let mut b: usize = len;
    while b > a && s.get_char(b - 1) == '/'
        invariant
            a <= b <= len,
            len == s@.len(),
            trim_trailing_slashes(s@.skip(a as int)) == trim_trailing_slashes(
                s@.subrange(a as int, b as int),
            ),
        decreases b,
    {
        proof {
            let cur = s@.subrange(a as int, b as int);
            assert(cur.len() > 0);
            assert(cur.last() == s@[b as int - 1]);
            assert(cur.drop_last() =~= s@.subrange(a as int, b as int - 1));
        }
        b = b - 1;
    }
    proof {
        let cur = s@.subrange(a as int, b as int);
        if b > a {
            assert(cur.last() == s@[b as int - 1]);
        }
        assert(trim_trailing_slashes(cur) == cur);
    }
    s.substring_char(a, b).to_owned()
}

/// Whether `k` is the position of the first slash in `s`.
pub open spec fn first_slash_at(s: Seq<char>, k: int) -> bool {
    0 <= k < s.len() && s[k] == '/' && (forall|m: int| 0 <= m < k ==> s[m] != '/')
}

pub proof fn lemma_first_slash_unique(s: Seq<char>, k1: int, k2: int)
    requires
        first_slash_at(s, k1),
        first_slash_at(s, k2),
    ensures
        k1 == k2,
{
}

/// Whether `k` is the position of the last slash in `s`.
pub open spec fn last_slash_at(s: Seq<char>, k: int) -> bool {
    0 <= k < s.len() && s[k] == '/' && (forall|m: int| k < m < s.len() ==> s[m] != '/')
}

/// Where the final path component of `s` starts: just after the last slash,
/// or at the start when there is none.
pub open spec fn base_name_start(s: Seq<char>) -> int {
    if s.contains('/') {
        (choose|k: int| last_slash_at(s, k)) + 1
    } else {
        0
    }
}

/// The final `/`-delimited component of `s`.
pub open spec fn base_name(s: Seq<char>) -> Seq<char> {
    s.skip(base_name_start(s))
}

/// `s` with its final `/`-delimited component removed; empty when `s` has a
/// single component.
pub open spec fn parent_of(s: Seq<char>) -> Seq<char> {
    if s.contains('/') {
        s.take(base_name_start(s) - 1)
    } else {
        Seq::empty()
    }
}

pub proof fn lemma_last_slash_unique(s: Seq<char>, k1: int, k2: int)
    requires
        last_slash_at(s, k1),
        last_slash_at(s, k2),
    ensures
        k1 == k2,
{
}

/// Find where the final path component of `s` starts.
pub fn find_base_name_start(s: &str) -> (r: usize)
    ensures
        r == base_name_start(s@),
        r <= s@.len(),
{
    let len = s.unicode_len();
    let mut i: usize = len;
    while i > 0
        invariant
            i <= len,
            len == s@.len(),
            forall|m: int| i <= m < len ==> s@[m] != '/',
        decreases i,
    {
        if s.get_char(i - 1) == '/' {
            proof {
                assert(last_slash_at(s@, i as int - 1));
                assert(s@.contains('/')) by {
                    assert(s@[i as int - 1] == '/');
                }
                let k = choose|k: int| last_slash_at(s@, k);
                lemma_last_slash_unique(s@, k, i as int - 1);
            }
            return i;
        }
        i = i - 1;
    }
    proof {
        assert(!s@.contains('/')) by {
            assert(forall|m: int| 0 <= m < s@.len() ==> s@[m] != '/');
        }
    }
    0
}

/// The nonempty `/`-separated segments of a path.
pub open spec fn path_segments(s: Seq<char>) -> Seq<Seq<char>> {
    split_on(s, '/').filter(|p: Seq<char>| p.len() > 0)
}

/// The segment contains `..` somewhere in it.
pub open spec fn has_dotdot(seg: Seq<char>) -> bool {
    exists|i: int| 0 <= i && i + 2 <= seg.len() && #[trigger] seg[i] == '.' && seg[i + 1] == '.'
}

/// The segment is a traversal token: it is `.`, or it contains `..`.
pub open spec fn is_traversal(seg: Seq<char>) -> bool {
    seg == seq!['.'] || has_dotdot(seg)
}

/// Decide whether one path segment is a traversal token.
pub fn seg_is_traversal(seg: &str) -> (r: bool)
    ensures
        r == is_traversal(seg@),
{
    let len = seg.unicode_len();
    if len == 1 && seg.get_char(0) == '.' {
        proof {
            assert(seg@ =~= seq!['.']);
        }
        return true;
    }
    if len >= 2 {
        let mut i: usize = 0;
        while i < len - 1
            invariant
                len >= 2,
                i <= len - 1,
                len == seg@.len(),
                forall|j: int| 0 <= j < i ==> !(#[trigger] seg@[j] == '.' && seg@[j + 1] == '.'),
            decreases len - i,
        {
            if seg.get_char(i) == '.' && seg.get_char(i + 1) == '.' {
                proof {
                    assert(has_dotdot(seg@));
                }
                return true;
            }
            i = i + 1;
        }
        proof {
            assert(!has_dotdot(seg@));
            assert(seg@ != seq!['.']) by {
                assert(seg@.len() != 1);
            }
        }
        return false;
    }
    proof {
        assert(!has_dotdot(seg@));
        if len == 1 {
            assert(seg@[0] != '.');
            assert(seg@ != seq!['.']);
        } else {
            assert(seg@ != seq!['.']) by {
                assert(seg@.len() != 1);
            }
        }
    }
    false
}

/// Join the parts with `/` between each two neighbours.
pub fn join_slash(parts: &Vec<String>) -> (r: String)
    ensures
        r@ == join_on(views_of(parts@), '/'),
{
    let mut r = String::new();
    let mut i: usize = 0;
    while i < parts.len()
        invariant
            i <= parts@.len(),
            r@ == join_on(views_of(parts@).take(i as int), '/'),
        decreases parts@.len() - i,
    {
        proof {
            reveal_strlit("/");
            lemma_join_on_push(views_of(parts@).take(i as int), '/', parts@[i as int]@);
            assert(views_of(parts@).take(i as int).push(parts@[i as int]@) =~~= views_of(
                parts@,
            ).take(i as int + 1));
        }
        if i > 0 {
            r.append("/");
            proof {
                assert("/"@ =~= seq!['/']);
            }
        } else {
            proof {
                assert(views_of(parts@).take(0) =~~= Seq::<Seq<char>>::empty());
                assert(r@ =~= Seq::<char>::empty());
            }
        }
        r.append(parts[i].as_str());
        proof {
            if i > 0 {
                assert(r@ =~= join_on(views_of(parts@).take(i as int), '/') + seq!['/']
                    + parts@[i as int]@);
            } else {
                assert(r@ =~= parts@[0]@);
            }
        }
        i = i + 1;
    }
    proof {
        assert(views_of(parts@).take(parts@.len() as int) =~~= views_of(parts@));
    }
    r
}

} // verus!
