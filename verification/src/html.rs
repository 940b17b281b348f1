//! Page assembly: markup escaping, URL encoding of logical paths, and the
//! full pages the server sends. Each builder's contract states the exact
//! text it produces.

use vstd::prelude::*;
use vstd::string::StringSliceAdditionalSpecFns;

use crate::directory::{DirectoryEntry, DirectoryListing, MarkdownFile};
use crate::i18n::{spec_text, Language};
use crate::paths::nonempty_segments;
use crate::strings::{
    ascii_string_from_bytes, chars_of_bytes, join_on, path_segments, split_on, split_slash,
    views_of,
};

verus! {

/// The characters that markup escaping rewrites.
pub open spec fn needs_escape(c: char) -> bool {
    c == '&' || c == '<' || c == '>' || c == '"' || c == '\''
}

/// What one character becomes in escaped markup.
pub open spec fn escape_char(c: char) -> Seq<char> {
    if c == '&' {
        "&amp;"@
    } else if c == '<' {
        "&lt;"@
    } else if c == '>' {
        "&gt;"@
    } else if c == '"' {
        "&quot;"@
    } else if c == '\'' {
        "&#x27;"@
    } else {
        seq![c]
    }
}

/// Markup-escaped text.
pub open spec fn escape_seq(s: Seq<char>) -> Seq<char>
    decreases s.len(),
{
    if s.len() == 0 {
        Seq::<char>::empty()
    } else {
        escape_char(s[0]) + escape_seq(s.drop_first())
    }
}

proof fn lemma_escape_seq_add(a: Seq<char>, b: Seq<char>)
    ensures
        escape_seq(a + b) == escape_seq(a) + escape_seq(b),
    decreases a.len(),
{
    if a.len() == 0 {
        assert(a + b =~= b);
        assert(escape_seq(a) + escape_seq(b) =~= escape_seq(b));
    } else {
        assert((a + b).drop_first() =~= a.drop_first() + b);
        lemma_escape_seq_add(a.drop_first(), b);
        assert((a + b)[0] == a[0]);
        assert(escape_char(a[0]) + (escape_seq(a.drop_first()) + escape_seq(b)) =~= (
        escape_char(a[0]) + escape_seq(a.drop_first())) + escape_seq(b));
    }
}

proof fn lemma_escape_seq_plain(x: Seq<char>)
    requires
        forall|i: int| 0 <= i < x.len() ==> !needs_escape(#[trigger] x[i]),
    ensures
        escape_seq(x) == x,
    decreases x.len(),
{
    if x.len() > 0 {
        lemma_escape_seq_plain(x.drop_first());
        assert(!needs_escape(x[0]));
        assert(escape_char(x[0]) == seq![x[0]]);
        assert(seq![x[0]] + x.drop_first() =~= x);
    }
}

proof fn lemma_escape_seq_one(c: char)
    ensures
        escape_seq(seq![c]) == escape_char(c),
{
    assert(seq![c].len() == 1);
    assert(seq![c][0] == c);
    assert(seq![c].drop_first() =~= Seq::<char>::empty());
    assert(escape_seq(Seq::<char>::empty()) == Seq::<char>::empty());
    assert(escape_char(c) + Seq::<char>::empty() =~= escape_char(c));
}

/// Escape the five special markup characters.
pub fn escape_html(s: &str) -> (r: String)
    ensures
        r@ == escape_seq(s@),
{
    let len = s.unicode_len();
    let mut r = String::new();
    let mut start: usize = 0;
    let mut i: usize = 0;
    proof {
        assert(s@.take(0) =~= Seq::<char>::empty());
    }
    while i < len
        invariant
            start <= i <= len,
            len == s@.len(),
            forall|j: int| start <= j < i ==> !needs_escape(#[trigger] s@[j]),
            r@ == escape_seq(s@.take(start as int)),
        decreases len - i,
    {
        let c = s.get_char(i);
        let rep: Option<&'static str> = if c == '&' {
            Some("&amp;")
        } else if c == '<' {
            Some("&lt;")
        } else if c == '>' {
            Some("&gt;")
        } else if c == '"' {
            Some("&quot;")
        } else if c == '\'' {
            Some("&#x27;")
        } else {
            None
        };
        match rep {
            Some(e) => {
                let chunk = s.substring_char(start, i);
                r.append(chunk);
                r.append(e);
                proof {
                    lemma_escape_seq_add(
                        s@.take(start as int),
                        s@.subrange(start as int, i as int),
                    );
                    lemma_escape_seq_plain(s@.subrange(start as int, i as int));
                    assert(s@.take(i as int) =~= s@.take(start as int) + s@.subrange(
                        start as int,
                        i as int,
                    ));
                    lemma_escape_seq_add(s@.take(i as int), seq![s@[i as int]]);
                    lemma_escape_seq_one(s@[i as int]);
                    assert(s@.take(i as int + 1) =~= s@.take(i as int) + seq![s@[i as int]]);
                    assert(e@ == escape_char(s@[i as int]));
                    assert(r@ =~= escape_seq(s@.take(i as int + 1)));
                }
                i = i + 1;
                start = i;
            },
            None => {
                i = i + 1;
            },
        }
    }
    let chunk = s.substring_char(start, len);
    r.append(chunk);
    proof {
        lemma_escape_seq_add(s@.take(start as int), s@.subrange(start as int, len as int));
        lemma_escape_seq_plain(s@.subrange(start as int, len as int));
        assert(s@ =~= s@.take(start as int) + s@.subrange(start as int, len as int));
    }
    r
}

/// The bytes that stay themselves in a URL path segment.
pub open spec fn unreserved_byte(b: u8) -> bool {
    (65 <= b <= 90) || (97 <= b <= 122) || (48 <= b <= 57) || b == 45 || b == 46 || b == 95
        || b == 126
}

/// The character of one hexadecimal digit, upper case.
pub open spec fn hex_digit_char(d: u8) -> char {
    if d < 10 {
        (48 + d) as char
    } else {
        (55 + d) as char
    }
}

/// What one byte becomes in a URL path segment.
pub open spec fn encode_byte(b: u8) -> Seq<char> {
    if unreserved_byte(b) {
        seq![b as char]
    } else {
        seq!['%', hex_digit_char(b / 16), hex_digit_char(b % 16)]
    }
}

/// A URL path segment: each byte of the text kept or percent-encoded.
pub open spec fn encode_bytes(bs: Seq<u8>) -> Seq<char>
    decreases bs.len(),
{
    if bs.len() == 0 {
        Seq::<char>::empty()
    } else {
        encode_byte(bs[0]) + encode_bytes(bs.drop_first())
    }
}

proof fn lemma_encode_bytes_push(bs: Seq<u8>, b: u8)
    ensures
        encode_bytes(bs.push(b)) == encode_bytes(bs) + encode_byte(b),
    decreases bs.len(),
{
    if bs.len() == 0 {
        assert(bs.push(b).len() == 1);
        assert(bs.push(b).drop_first() =~= Seq::<u8>::empty());
        assert(bs.push(b)[0] == b);
        assert(encode_bytes(Seq::<u8>::empty()) == Seq::<char>::empty());
        assert(encode_byte(b) + Seq::<char>::empty() =~= encode_byte(b));
        assert(encode_bytes(bs) + encode_byte(b) =~= encode_byte(b));
    } else {
        assert(bs.push(b).drop_first() =~= bs.drop_first().push(b));
        lemma_encode_bytes_push(bs.drop_first(), b);
        assert(bs.push(b)[0] == bs[0]);
        assert(encode_byte(bs[0]) + (encode_bytes(bs.drop_first()) + encode_byte(b)) =~= (
        encode_byte(bs[0]) + encode_bytes(bs.drop_first())) + encode_byte(b));
    }
}

fn hex_digit(d: u8) -> (r: u8)
    requires
        d < 16,
    ensures
        r < 128,
        r as char == hex_digit_char(d),
{
    if d < 10 {
        48 + d
    } else {
        55 + d
    }
}

/// Percent-encode one path segment, byte by byte.
pub fn encode_segment(segment: &str) -> (r: String)
    ensures
        r@ == encode_bytes(segment.spec_bytes()),
{
    let bytes = segment.as_bytes();
    let mut out: Vec<u8> = Vec::new();
    let mut i: usize = 0;
    proof {
        assert(segment.spec_bytes().take(0) =~= Seq::<u8>::empty());
        assert(chars_of_bytes(out@) =~= Seq::<char>::empty());
    }
    while i < bytes.len()
        invariant
            i <= bytes@.len(),
            bytes@ == segment.spec_bytes(),
            forall|j: int| 0 <= j < out@.len() ==> out@[j] < 128,
            chars_of_bytes(out@) == encode_bytes(bytes@.take(i as int)),
        decreases bytes@.len() - i,
    {
        let b = bytes[i];
        let ghost old_out = out@;
        let unreserved = (65 <= b && b <= 90) || (97 <= b && b <= 122) || (48 <= b && b <= 57)
            || b == 45 || b == 46 || b == 95 || b == 126;
        if unreserved {
            out.push(b);
            proof {
                assert(chars_of_bytes(out@) =~= chars_of_bytes(old_out).push(b as char));
                assert(encode_byte(b) == seq![b as char]);
            }
        } else {
            out.push(37);
            out.push(hex_digit(b / 16));
            out.push(hex_digit(b % 16));
            proof {
                assert(37 as char == '%');
                assert(chars_of_bytes(out@) =~= chars_of_bytes(old_out) + seq![
                    '%',
                    hex_digit_char(b / 16),
                    hex_digit_char(b % 16),
                ]);
            }
        }
        proof {
            lemma_encode_bytes_push(bytes@.take(i as int), b);
            assert(bytes@.take(i as int + 1) =~= bytes@.take(i as int).push(b));
            assert(chars_of_bytes(out@) =~= encode_bytes(bytes@.take(i as int + 1)));
        }
        i = i + 1;
    }
    proof {
        assert(bytes@.take(bytes@.len() as int) =~= bytes@);
    }
    ascii_string_from_bytes(out)
}

/// A whole logical path percent-encoded: its nonempty segments, each
/// encoded, joined with `/`.
pub open spec fn spec_encode_path(p: Seq<char>) -> Seq<char> {
    join_on(
        path_segments(p).map_values(|seg: Seq<char>| encode_bytes(vstd::utf8::encode_utf8(seg))),
        '/',
    )
}

/// Percent-encode a logical path for use in a URL.
pub fn encode_path(p: &str) -> (r: String)
    ensures
        r@ == spec_encode_path(p@),
{
    let segs = nonempty_segments(p);
    let ghost target = path_segments(p@).map_values(
        |seg: Seq<char>| encode_bytes(vstd::utf8::encode_utf8(seg)),
    );
    let mut encoded: Vec<String> = Vec::new();
    let mut i: usize = 0;
    proof {
        assert(views_of(encoded@) =~~= target.take(0));
    }
    while i < segs.len()
        invariant
            i <= segs@.len(),
            views_of(segs@) == path_segments(p@),
            target == path_segments(p@).map_values(
                |seg: Seq<char>| encode_bytes(vstd::utf8::encode_utf8(seg)),
            ),
            views_of(encoded@) == target.take(i as int),
        decreases segs@.len() - i,
    {
        let e = encode_segment(segs[i].as_str());
        let ghost old_enc = encoded@;
        proof {
            assert(vstd::utf8::encode_utf8(segs@[i as int]@) == vstd::utf8::encode_utf8(
                path_segments(p@)[i as int],
            ));
        }
        encoded.push(e);
        proof {
            assert(views_of(encoded@) =~~= views_of(old_enc).push(
                encode_bytes(vstd::utf8::encode_utf8(path_segments(p@)[i as int])),
            ));
            assert(target.take(i as int + 1) =~~= target.take(i as int).push(
                target[i as int],
            ));
        }
        i = i + 1;
    }
    proof {
        assert(target.take(segs@.len() as int) =~~= target);
    }
    crate::strings::join_slash(&encoded)
}


/// The language attribute of a page.
pub open spec fn lang_code(lang: Language) -> Seq<char> {
    match lang {
        Language::English => "en"@,
        Language::Korean => "ko"@,
    }
}

fn lang_code_str(language: &Language) -> (r: &'static str)
    ensures
        r@ == lang_code(*language),
{
    match language {
        Language::English => "en",
        Language::Korean => "ko",
    }
}


/// The exact text of a full page around rendered markdown content.
pub open spec fn spec_render_page(content: Seq<char>, lang: Language) -> Seq<char> {
    r#"<!DOCTYPE html>
<html lang=""#@ + lang_code(lang) + r#"">
<head>
    <meta charset="UTF-8">
    <meta name="viewport" content="width=device-width, initial-scale=1.0">
    <title>"#@ + spec_text(lang, "title_viewer"@) + r#"</title>
    <style>
        * { margin: 0; padding: 0; box-sizing: border-box; }

        body {
            font-family: -apple-system, BlinkMacSystemFont, "Segoe UI", Roboto, "Helvetica Neue", sans-serif;
            line-height: 1.75;
            color: #1a1a1a;
            background: #fafafa;
            min-height: 100vh;
            padding: 2rem 1rem;
            -webkit-font-smoothing: antialiased;
        }

        .container {
            max-width: 800px;
            margin: 0 auto;
            background: #ffffff;
            padding: 4rem 3.5rem;
            border-radius: 12px;
            box-shadow: 0 1px 3px rgba(0, 0, 0, 0.05);
            animation: fadeIn 0.3s ease-out;
        }

        @keyframes fadeIn {
            from { opacity: 0; transform: translateY(10px); }
            to { opacity: 1; transform: translateY(0); }
        }

        h1, h2, h3, h4, h5, h6 {
            font-weight: 600;
            line-height: 1.4;
            color: #1a1a1a;
            margin: 2.5rem 0 1rem;
        }

        h1 { font-size: 2.5rem; margin-top: 0; }
        h2 { font-size: 2rem; margin-top: 3rem; }
        h3 { font-size: 1.5rem; }
        h4 { font-size: 1.25rem; }
        h5 { font-size: 1.125rem; }
        h6 { font-size: 1rem; }

        p {
            margin: 1.25rem 0;
            color: #404040;
            font-size: 1.0625rem;
        }

        a {
            color: #0066cc;
            text-decoration: none;
            transition: color 0.15s;
            border-bottom: 1px solid transparent;
        }

        a:hover {
            color: #0052a3;
            border-bottom-color: #0052a3;
        }

        code {
            background: #f5f5f5;
            color: #e01e5a;
            padding: 0.2em 0.4em;
            border-radius: 3px;
            font-family: "SF Mono", Monaco, "Cascadia Code", "Roboto Mono", Consolas, monospace;
            font-size: 0.875em;
        }

        pre {
            background: #f8f8f8;
            padding: 1.5rem;
            border-radius: 6px;
            overflow-x: auto;
            margin: 2rem 0;
            border: 1px solid #e8e8e8;
        }

        pre code {
            background: none;
            color: #1a1a1a;
            padding: 0;
            font-size: 0.9375rem;
        }

        blockquote {
            border-left: 3px solid #e0e0e0;
            margin: 2rem 0;
            padding: 0.5rem 1.5rem;
            color: #606060;
            font-style: normal;
        }

        blockquote p {
            color: #606060;
        }

        img {
            max-width: 100%;
            height: auto;
            border-radius: 6px;
            margin: 2rem 0;
        }

        table {
            width: 100%;
            margin: 2rem 0;
            border-collapse: collapse;
            font-size: 0.9375rem;
        }

        th, td {
            padding: 0.75rem 1rem;
            text-align: left;
            border-bottom: 1px solid #e8e8e8;
        }

        th {
            background: #fafafa;
            font-weight: 600;
            color: #1a1a1a;
        }

        tr:last-child td {
            border-bottom: none;
        }

        ul, ol {
            margin: 1.25rem 0;
            padding-left: 2rem;
            color: #404040;
        }

        li {
            margin: 0.5rem 0;
            line-height: 1.75;
        }

        hr {
            border: none;
            height: 1px;
            background: #e8e8e8;
            margin: 3rem 0;
        }

        @media (max-width: 768px) {
            body { padding: 1rem; }
            .container {
                padding: 2.5rem 2rem;
                border-radius: 8px;
            }
            h1 { font-size: 2rem; }
            h2 { font-size: 1.75rem; }
        }
    </style>
    <script>
    document.addEventListener("keydown", function(event) {
      if ((event.ctrlKey || event.metaKey) && event.key === "\\") {
        event.preventDefault();
        window.open("/compare", "_self");
      }
    });
    </script>
</head>
<body>
    <div class="container">
        "#@ + content + r#"
    </div>
</body>
</html>"#@
}


/// A complete page carrying rendered markdown content, titled for the
/// viewer.
pub fn render_page(html_content: &str, language: &Language) -> (r: String)
    ensures
        r@ == spec_render_page(html_content@, *language),
{
    let mut r = String::new();
    r.append(r#"<!DOCTYPE html>
<html lang=""#);
    r.append(lang_code_str(language));
    r.append(r#"">
<head>
    <meta charset="UTF-8">
    <meta name="viewport" content="width=device-width, initial-scale=1.0">
    <title>"#);
    r.append(language.text("title_viewer"));
    r.append(r#"</title>
    <style>
        * { margin: 0; padding: 0; box-sizing: border-box; }

        body {
            font-family: -apple-system, BlinkMacSystemFont, "Segoe UI", Roboto, "Helvetica Neue", sans-serif;
            line-height: 1.75;
            color: #1a1a1a;
            background: #fafafa;
            min-height: 100vh;
            padding: 2rem 1rem;
            -webkit-font-smoothing: antialiased;
        }

        .container {
            max-width: 800px;
            margin: 0 auto;
            background: #ffffff;
            padding: 4rem 3.5rem;
            border-radius: 12px;
            box-shadow: 0 1px 3px rgba(0, 0, 0, 0.05);
            animation: fadeIn 0.3s ease-out;
        }

        @keyframes fadeIn {
            from { opacity: 0; transform: translateY(10px); }
            to { opacity: 1; transform: translateY(0); }
        }

        h1, h2, h3, h4, h5, h6 {
            font-weight: 600;
            line-height: 1.4;
            color: #1a1a1a;
            margin: 2.5rem 0 1rem;
        }

        h1 { font-size: 2.5rem; margin-top: 0; }
        h2 { font-size: 2rem; margin-top: 3rem; }
        h3 { font-size: 1.5rem; }
        h4 { font-size: 1.25rem; }
        h5 { font-size: 1.125rem; }
        h6 { font-size: 1rem; }

        p {
            margin: 1.25rem 0;
            color: #404040;
            font-size: 1.0625rem;
        }

        a {
            color: #0066cc;
            text-decoration: none;
            transition: color 0.15s;
            border-bottom: 1px solid transparent;
        }

        a:hover {
            color: #0052a3;
            border-bottom-color: #0052a3;
        }

        code {
            background: #f5f5f5;
            color: #e01e5a;
            padding: 0.2em 0.4em;
            border-radius: 3px;
            font-family: "SF Mono", Monaco, "Cascadia Code", "Roboto Mono", Consolas, monospace;
            font-size: 0.875em;
        }

        pre {
            background: #f8f8f8;
            padding: 1.5rem;
            border-radius: 6px;
            overflow-x: auto;
            margin: 2rem 0;
            border: 1px solid #e8e8e8;
        }

        pre code {
            background: none;
            color: #1a1a1a;
            padding: 0;
            font-size: 0.9375rem;
        }

        blockquote {
            border-left: 3px solid #e0e0e0;
            margin: 2rem 0;
            padding: 0.5rem 1.5rem;
            color: #606060;
            font-style: normal;
        }

        blockquote p {
            color: #606060;
        }

        img {
            max-width: 100%;
            height: auto;
            border-radius: 6px;
            margin: 2rem 0;
        }

        table {
            width: 100%;
            margin: 2rem 0;
            border-collapse: collapse;
            font-size: 0.9375rem;
        }

        th, td {
            padding: 0.75rem 1rem;
            text-align: left;
            border-bottom: 1px solid #e8e8e8;
        }

        th {
            background: #fafafa;
            font-weight: 600;
            color: #1a1a1a;
        }

        tr:last-child td {
            border-bottom: none;
        }

        ul, ol {
            margin: 1.25rem 0;
            padding-left: 2rem;
            color: #404040;
        }

        li {
            margin: 0.5rem 0;
            line-height: 1.75;
        }

        hr {
            border: none;
            height: 1px;
            background: #e8e8e8;
            margin: 3rem 0;
        }

        @media (max-width: 768px) {
            body { padding: 1rem; }
            .container {
                padding: 2.5rem 2rem;
                border-radius: 8px;
            }
            h1 { font-size: 2rem; }
            h2 { font-size: 1.75rem; }
        }
    </style>
    <script>
    document.addEventListener("keydown", function(event) {
      if ((event.ctrlKey || event.metaKey) && event.key === "\\") {
        event.preventDefault();
        window.open("/compare", "_self");
      }
    });
    </script>
</head>
<body>
    <div class="container">
        "#);
    r.append(html_content);
    r.append(r#"
    </div>
</body>
</html>"#);
    proof {
        assert(r@ =~= spec_render_page(html_content@, *language));
    }
    r
}


/// The exact text of a page showing raw markdown, escaped.
pub open spec fn spec_render_raw_page(content: Seq<char>, lang: Language) -> Seq<char> {
    r#"<!DOCTYPE html>
<html lang=""#@ + lang_code(lang) + r#"">
<head>
    <meta charset="UTF-8">
    <meta name="viewport" content="width=device-width, initial-scale=1.0">
    <title>"#@ + spec_text(lang, "title_raw"@) + r#"</title>
    <style>
        * { margin: 0; padding: 0; box-sizing: border-box; }

        body {
            font-family: "SF Mono", Monaco, "Cascadia Code", "Roboto Mono", Consolas, monospace;
            background: #fafafa;
            min-height: 100vh;
            padding: 2rem 1rem;
            -webkit-font-smoothing: antialiased;
        }

        pre {
            max-width: 900px;
            margin: 0 auto;
            background: #ffffff;
            color: #1a1a1a;
            padding: 3rem;
            border-radius: 12px;
            box-shadow: 0 1px 3px rgba(0, 0, 0, 0.05);
            overflow-x: auto;
            white-space: pre-wrap;
            word-wrap: break-word;
            line-height: 1.7;
            border: 1px solid #e8e8e8;
            animation: fadeIn 0.3s ease-out;
            font-size: 0.9375rem;
        }

        @keyframes fadeIn {
            from { opacity: 0; transform: translateY(10px); }
            to { opacity: 1; transform: translateY(0); }
        }

        @media (max-width: 768px) {
            body { padding: 1rem; }
            pre {
                padding: 2rem;
                border-radius: 8px;
                font-size: 0.875rem;
            }
        }
    </style>
    <script>
    document.addEventListener("keydown", function(event) {
      if ((event.ctrlKey || event.metaKey) && event.key === "\\") {
        event.preventDefault();
        window.open("/compare", "_self");
      }
    });
    </script>
</head>
<body>
    <pre>"#@ + escape_seq(content) + r#"</pre>
</body>
</html>"#@
}


/// A page showing the raw markdown, markup-escaped, titled for the raw
/// view.
pub fn render_raw_page(markdown_content: &str, language: &Language) -> (r: String)
    ensures
        r@ == spec_render_raw_page(markdown_content@, *language),
{
    let mut r = String::new();
    r.append(r#"<!DOCTYPE html>
<html lang=""#);
    r.append(lang_code_str(language));
    r.append(r#"">
<head>
    <meta charset="UTF-8">
    <meta name="viewport" content="width=device-width, initial-scale=1.0">
    <title>"#);
    r.append(language.text("title_raw"));
    r.append(r#"</title>
    <style>
        * { margin: 0; padding: 0; box-sizing: border-box; }

        body {
            font-family: "SF Mono", Monaco, "Cascadia Code", "Roboto Mono", Consolas, monospace;
            background: #fafafa;
            min-height: 100vh;
            padding: 2rem 1rem;
            -webkit-font-smoothing: antialiased;
        }

        pre {
            max-width: 900px;
            margin: 0 auto;
            background: #ffffff;
            color: #1a1a1a;
            padding: 3rem;
            border-radius: 12px;
            box-shadow: 0 1px 3px rgba(0, 0, 0, 0.05);
            overflow-x: auto;
            white-space: pre-wrap;
            word-wrap: break-word;
            line-height: 1.7;
            border: 1px solid #e8e8e8;
            animation: fadeIn 0.3s ease-out;
            font-size: 0.9375rem;
        }

        @keyframes fadeIn {
            from { opacity: 0; transform: translateY(10px); }
            to { opacity: 1; transform: translateY(0); }
        }

        @media (max-width: 768px) {
            body { padding: 1rem; }
            pre {
                padding: 2rem;
                border-radius: 8px;
                font-size: 0.875rem;
            }
        }
    </style>
    <script>
    document.addEventListener("keydown", function(event) {
      if ((event.ctrlKey || event.metaKey) && event.key === "\\") {
        event.preventDefault();
        window.open("/compare", "_self");
      }
    });
    </script>
</head>
<body>
    <pre>"#);
    r.append(escape_html(markdown_content).as_str());
    r.append(r#"</pre>
</body>
</html>"#);
    proof {
        assert(r@ =~= spec_render_raw_page(markdown_content@, *language));
    }
    r
}


/// The exact text of a page showing rendered and raw views side by side.
pub open spec fn spec_render_compare_page(content: Seq<char>, raw: Seq<char>, lang: Language) -> Seq<char> {
    r#"<!DOCTYPE html>
<html lang=""#@ + lang_code(lang) + r#"">
<head>
    <meta charset="UTF-8">
    <meta name="viewport" content="width=device-width, initial-scale=1.0">
    <title>"#@ + spec_text(lang, "title_compare"@) + r#"</title>
    <style>
        * { margin: 0; padding: 0; box-sizing: border-box; }

        body {
            font-family: -apple-system, BlinkMacSystemFont, "Segoe UI", Roboto, "Helvetica Neue", sans-serif;
            background: #fafafa;
            min-height: 100vh;
            padding: 1rem;
            -webkit-font-smoothing: antialiased;
        }

        .compare-container {
            max-width: 1400px;
            margin: 0 auto;
            display: flex;
            gap: 2rem;
            height: calc(100vh - 2rem);
        }

        @media (min-width: 1200px) {
            .compare-container {
                gap: 2.5rem;
            }
        }

        .compare-panel {
            flex: 1;
            display: flex;
            flex-direction: column;
            background: #ffffff;
            border-radius: 16px;
            box-shadow: 0 4px 12px rgba(0, 0, 0, 0.08);
            border: 1px solid #e8e8e8;
            overflow: hidden;
            transition: box-shadow 0.2s ease, transform 0.2s ease;
        }

        .compare-panel:hover {
            box-shadow: 0 6px 20px rgba(0, 0, 0, 0.12);
            transform: translateY(-2px);
        }

        .panel-header {
            padding: 1rem 1.5rem;
            background: #f8f8f8;
            border-bottom: 1px solid #e8e8e8;
            font-weight: 600;
            color: #1a1a1a;
            font-size: 0.875rem;
            display: flex;
            align-items: center;
            gap: 0.5rem;
        }

        .panel-content {
            flex: 1;
            overflow-y: auto;
            padding: 0;
        }

        .rendered-content {
            padding: 4rem 3.5rem;
            line-height: 1.75;
            color: #1a1a1a;
        }

        .raw-content {
            padding: 2rem;
            font-family: "SF Mono", Monaco, "Cascadia Code", "Roboto Mono", Consolas, monospace;
            font-size: 0.875rem;
            line-height: 1.7;
            color: #1a1a1a;
            white-space: pre-wrap;
            word-wrap: break-word;
            background: #fafafa;
            height: 100%;
        }

        /* Rendered content styles */
        .rendered-content h1, .rendered-content h2, .rendered-content h3, 
        .rendered-content h4, .rendered-content h5, .rendered-content h6 {
            font-weight: 600;
            line-height: 1.4;
            color: #1a1a1a;
            margin: 2.5rem 0 1rem;
        }

        .rendered-content h1 { font-size: 2.5rem; margin-top: 0; }
        .rendered-content h2 { font-size: 2rem; margin-top: 3rem; }
        .rendered-content h3 { font-size: 1.5rem; }
        .rendered-content h4 { font-size: 1.25rem; }
        .rendered-content h5 { font-size: 1.125rem; }
        .rendered-content h6 { font-size: 1rem; }

        .rendered-content p {
            margin: 1.25rem 0;
            color: #404040;
            font-size: 1.0625rem;
        }

        .rendered-content a {
            color: #0066cc;
            text-decoration: none;
            transition: color 0.15s;
            border-bottom: 1px solid transparent;
        }

        .rendered-content a:hover {
            color: #0052a3;
            border-bottom-color: #0052a3;
        }

        .rendered-content code {
            background: #f5f5f5;
            color: #e01e5a;
            padding: 0.2em 0.4em;
            border-radius: 3px;
            font-family: "SF Mono", Monaco, "Cascadia Code", "Roboto Mono", Consolas, monospace;
            font-size: 0.875em;
        }

        .rendered-content pre {
            background: #f8f8f8;
            padding: 1.5rem;
            border-radius: 6px;
            overflow-x: auto;
            margin: 2rem 0;
            border: 1px solid #e8e8e8;
        }

        .rendered-content pre code {
            background: none;
            color: #1a1a1a;
            padding: 0;
            font-size: 0.9375rem;
        }

        .rendered-content blockquote {
            border-left: 3px solid #e0e0e0;
            margin: 2rem 0;
            padding: 0.5rem 1.5rem;
            color: #606060;
            font-style: normal;
        }

        .rendered-content blockquote p {
            color: #606060;
        }

        .rendered-content img {
            max-width: 100%;
            height: auto;
            border-radius: 6px;
            margin: 2rem 0;
        }

        .rendered-content table {
            width: 100%;
            margin: 2rem 0;
            border-collapse: collapse;
            font-size: 0.9375rem;
        }

        .rendered-content th, .rendered-content td {
            padding: 0.75rem 1rem;
            text-align: left;
            border-bottom: 1px solid #e8e8e8;
        }

        .rendered-content th {
            background: #fafafa;
            font-weight: 600;
            color: #1a1a1a;
        }

        .rendered-content tr:last-child td {
            border-bottom: none;
        }

        .rendered-content ul, .rendered-content ol {
            margin: 1.25rem 0;
            padding-left: 2rem;
            color: #404040;
        }

        .rendered-content li {
            margin: 0.5rem 0;
            line-height: 1.75;
        }

        .rendered-content hr {
            border: none;
            height: 1px;
            background: #e8e8e8;
            margin: 3rem 0;
        }

        @media (max-width: 1024px) {
            .compare-container {
                flex-direction: column;
                height: auto;
                gap: 1.5rem;
            }

            .compare-panel {
                min-height: 50vh;
            }

            .rendered-content {
                padding: 2.5rem 2rem;
            }

            .raw-content {
                padding: 1.5rem;
            }
        }

        @media (max-width: 768px) {
            body { padding: 0.5rem; }
            
            .compare-container {
                gap: 1rem;
            }

            .rendered-content {
                padding: 2rem 1.5rem;
            }

            .rendered-content h1 { font-size: 2rem; }
            .rendered-content h2 { font-size: 1.75rem; }

            .raw-content {
                padding: 1rem;
                font-size: 0.8125rem;
            }

            .panel-header {
                padding: 0.75rem 1rem;
                font-size: 0.8125rem;
            }
        }
    </style>
    <script>
    document.addEventListener("keydown", function(event) {
      if ((event.ctrlKey || event.metaKey) && event.key === "\\") {
        event.preventDefault();
        window.history.back();
      }
    });
    </script>
</head>
<body>
    <div class="compare-container">
        <div class="compare-panel">
            <div class="panel-header">
                <span>📄</span>
                <span>"#@ + spec_text(lang, "rendered_view"@) + r#"</span>
            </div>
            <div class="panel-content">
                <div class="rendered-content">
                    "#@ + content + r#"
                </div>
            </div>
        </div>
        <div class="compare-panel">
            <div class="panel-header">
                <span>🔤</span>
                <span>"#@ + spec_text(lang, "raw_view"@) + r#"</span>
            </div>
            <div class="panel-content">
                <div class="raw-content">"#@ + escape_seq(raw) + r#"</div>
            </div>
        </div>
    </div>
</body>
</html>"#@
}


/// A page showing the rendered view and the escaped raw view side by
/// side.
pub fn render_compare_page(html_content: &str, markdown_content: &str, language: &Language)
    -> (r: String)
    ensures
        r@ == spec_render_compare_page(html_content@, markdown_content@, *language),
{
    let mut r = String::new();
    r.append(r#"<!DOCTYPE html>
<html lang=""#);
    r.append(lang_code_str(language));
    r.append(r#"">
<head>
    <meta charset="UTF-8">
    <meta name="viewport" content="width=device-width, initial-scale=1.0">
    <title>"#);
    r.append(language.text("title_compare"));
    r.append(r#"</title>
    <style>
        * { margin: 0; padding: 0; box-sizing: border-box; }

        body {
            font-family: -apple-system, BlinkMacSystemFont, "Segoe UI", Roboto, "Helvetica Neue", sans-serif;
            background: #fafafa;
            min-height: 100vh;
            padding: 1rem;
            -webkit-font-smoothing: antialiased;
        }

        .compare-container {
            max-width: 1400px;
            margin: 0 auto;
            display: flex;
            gap: 2rem;
            height: calc(100vh - 2rem);
        }

        @media (min-width: 1200px) {
            .compare-container {
                gap: 2.5rem;
            }
        }

        .compare-panel {
            flex: 1;
            display: flex;
            flex-direction: column;
            background: #ffffff;
            border-radius: 16px;
            box-shadow: 0 4px 12px rgba(0, 0, 0, 0.08);
            border: 1px solid #e8e8e8;
            overflow: hidden;
            transition: box-shadow 0.2s ease, transform 0.2s ease;
        }

        .compare-panel:hover {
            box-shadow: 0 6px 20px rgba(0, 0, 0, 0.12);
            transform: translateY(-2px);
        }

        .panel-header {
            padding: 1rem 1.5rem;
            background: #f8f8f8;
            border-bottom: 1px solid #e8e8e8;
            font-weight: 600;
            color: #1a1a1a;
            font-size: 0.875rem;
            display: flex;
            align-items: center;
            gap: 0.5rem;
        }

        .panel-content {
            flex: 1;
            overflow-y: auto;
            padding: 0;
        }

        .rendered-content {
            padding: 4rem 3.5rem;
            line-height: 1.75;
            color: #1a1a1a;
        }

        .raw-content {
            padding: 2rem;
            font-family: "SF Mono", Monaco, "Cascadia Code", "Roboto Mono", Consolas, monospace;
            font-size: 0.875rem;
            line-height: 1.7;
            color: #1a1a1a;
            white-space: pre-wrap;
            word-wrap: break-word;
            background: #fafafa;
            height: 100%;
        }

        /* Rendered content styles */
        .rendered-content h1, .rendered-content h2, .rendered-content h3, 
        .rendered-content h4, .rendered-content h5, .rendered-content h6 {
            font-weight: 600;
            line-height: 1.4;
            color: #1a1a1a;
            margin: 2.5rem 0 1rem;
        }

        .rendered-content h1 { font-size: 2.5rem; margin-top: 0; }
        .rendered-content h2 { font-size: 2rem; margin-top: 3rem; }
        .rendered-content h3 { font-size: 1.5rem; }
        .rendered-content h4 { font-size: 1.25rem; }
        .rendered-content h5 { font-size: 1.125rem; }
        .rendered-content h6 { font-size: 1rem; }

        .rendered-content p {
            margin: 1.25rem 0;
            color: #404040;
            font-size: 1.0625rem;
        }

        .rendered-content a {
            color: #0066cc;
            text-decoration: none;
            transition: color 0.15s;
            border-bottom: 1px solid transparent;
        }

        .rendered-content a:hover {
            color: #0052a3;
            border-bottom-color: #0052a3;
        }

        .rendered-content code {
            background: #f5f5f5;
            color: #e01e5a;
            padding: 0.2em 0.4em;
            border-radius: 3px;
            font-family: "SF Mono", Monaco, "Cascadia Code", "Roboto Mono", Consolas, monospace;
            font-size: 0.875em;
        }

        .rendered-content pre {
            background: #f8f8f8;
            padding: 1.5rem;
            border-radius: 6px;
            overflow-x: auto;
            margin: 2rem 0;
            border: 1px solid #e8e8e8;
        }

        .rendered-content pre code {
            background: none;
            color: #1a1a1a;
            padding: 0;
            font-size: 0.9375rem;
        }

        .rendered-content blockquote {
            border-left: 3px solid #e0e0e0;
            margin: 2rem 0;
            padding: 0.5rem 1.5rem;
            color: #606060;
            font-style: normal;
        }

        .rendered-content blockquote p {
            color: #606060;
        }

        .rendered-content img {
            max-width: 100%;
            height: auto;
            border-radius: 6px;
            margin: 2rem 0;
        }

        .rendered-content table {
            width: 100%;
            margin: 2rem 0;
            border-collapse: collapse;
            font-size: 0.9375rem;
        }

        .rendered-content th, .rendered-content td {
            padding: 0.75rem 1rem;
            text-align: left;
            border-bottom: 1px solid #e8e8e8;
        }

        .rendered-content th {
            background: #fafafa;
            font-weight: 600;
            color: #1a1a1a;
        }

        .rendered-content tr:last-child td {
            border-bottom: none;
        }

        .rendered-content ul, .rendered-content ol {
            margin: 1.25rem 0;
            padding-left: 2rem;
            color: #404040;
        }

        .rendered-content li {
            margin: 0.5rem 0;
            line-height: 1.75;
        }

        .rendered-content hr {
            border: none;
            height: 1px;
            background: #e8e8e8;
            margin: 3rem 0;
        }

        @media (max-width: 1024px) {
            .compare-container {
                flex-direction: column;
                height: auto;
                gap: 1.5rem;
            }

            .compare-panel {
                min-height: 50vh;
            }

            .rendered-content {
                padding: 2.5rem 2rem;
            }

            .raw-content {
                padding: 1.5rem;
            }
        }

        @media (max-width: 768px) {
            body { padding: 0.5rem; }
            
            .compare-container {
                gap: 1rem;
            }

            .rendered-content {
                padding: 2rem 1.5rem;
            }

            .rendered-content h1 { font-size: 2rem; }
            .rendered-content h2 { font-size: 1.75rem; }

            .raw-content {
                padding: 1rem;
                font-size: 0.8125rem;
            }

            .panel-header {
                padding: 0.75rem 1rem;
                font-size: 0.8125rem;
            }
        }
    </style>
    <script>
    document.addEventListener("keydown", function(event) {
      if ((event.ctrlKey || event.metaKey) && event.key === "\\") {
        event.preventDefault();
        window.history.back();
      }
    });
    </script>
</head>
<body>
    <div class="compare-container">
        <div class="compare-panel">
            <div class="panel-header">
                <span>📄</span>
                <span>"#);
    r.append(language.text("rendered_view"));
    r.append(r#"</span>
            </div>
            <div class="panel-content">
                <div class="rendered-content">
                    "#);
    r.append(html_content);
    r.append(r#"
                </div>
            </div>
        </div>
        <div class="compare-panel">
            <div class="panel-header">
                <span>🔤</span>
                <span>"#);
    r.append(language.text("raw_view"));
    r.append(r#"</span>
            </div>
            <div class="panel-content">
                <div class="raw-content">"#);
    r.append(escape_html(markdown_content).as_str());
    r.append(r#"</div>
            </div>
        </div>
    </div>
</body>
</html>"#);
    proof {
        assert(r@ =~= spec_render_compare_page(html_content@, markdown_content@, *language));
    }
    r
}


/// Join parts with a separator string between each two neighbours.
pub open spec fn join_str(parts: Seq<Seq<char>>, sep: Seq<char>) -> Seq<char>
    decreases parts.len(),
{
    if parts.len() == 0 {
        Seq::<char>::empty()
    } else if parts.len() == 1 {
        parts[0]
    } else {
        parts[0] + sep + join_str(parts.drop_first(), sep)
    }
}

proof fn lemma_join_str_push(parts: Seq<Seq<char>>, sep: Seq<char>, x: Seq<char>)
    ensures
        join_str(parts.push(x), sep) == if parts.len() == 0 {
            x
        } else {
            join_str(parts, sep) + sep + x
        },
    decreases parts.len(),
{
    let p2 = parts.push(x);
    if parts.len() == 0 {
        assert(p2.len() == 1);
        assert(p2[0] == x);
    } else if parts.len() == 1 {
        assert(p2.len() == 2);
        assert(p2.drop_first() =~~= seq![x]);
        assert(join_str(seq![x], sep) == x);
        assert(join_str(p2, sep) == p2[0] + sep + join_str(p2.drop_first(), sep));
        assert(join_str(parts, sep) == parts[0]);
    } else {
        lemma_join_str_push(parts.drop_first(), sep, x);
        assert(p2.drop_first() =~~= parts.drop_first().push(x));
        assert(join_str(p2, sep) == p2[0] + sep + join_str(p2.drop_first(), sep));
        assert(p2[0] + sep + (join_str(parts.drop_first(), sep) + sep + x) =~= (parts[0] + sep
            + join_str(parts.drop_first(), sep)) + sep + x);
    }
}

/// Join owned parts with a separator.
fn join_with(parts: &Vec<String>, sep: &str) -> (r: String)
    ensures
        r@ == join_str(views_of(parts@), sep@),
{
    let mut r = String::new();
    let mut i: usize = 0;
    while i < parts.len()
        invariant
            i <= parts@.len(),
            r@ == join_str(views_of(parts@).take(i as int), sep@),
        decreases parts@.len() - i,
    {
        proof {
            lemma_join_str_push(views_of(parts@).take(i as int), sep@, parts@[i as int]@);
            assert(views_of(parts@).take(i as int).push(parts@[i as int]@) =~~= views_of(
                parts@,
            ).take(i as int + 1));
        }
        if i > 0 {
            r.append(sep);
        } else {
            proof {
                assert(views_of(parts@).take(0) =~~= Seq::<Seq<char>>::empty());
                assert(r@ =~= Seq::<char>::empty());
            }
        }
        r.append(parts[i].as_str());
        proof {
            if i > 0 {
                assert(r@ =~= join_str(views_of(parts@).take(i as int), sep@) + sep@
                    + parts@[i as int]@);
            } else {
                assert(r@ =~= parts@[0]@);
            }
        }
        i = i + 1;
    }
    proof {
        assert(views_of(parts@).take(parts@.len() as int) =~~= views_of(parts@));
    }
    r
}


/// One breadcrumb: the current location, the root link, or a directory
/// link.
pub open spec fn crumb_markup(path: Seq<char>, label: Seq<char>, is_last: bool) -> Seq<char> {
    if is_last {
        r#"<span class="breadcrumb-current">"#@ + escape_seq(label) + r#"</span>"#@
    } else if path.len() == 0 {
        r#"<a href="/">"#@ + escape_seq(label) + r#"</a>"#@
    } else {
        r#"<a href="/dir/"#@ + spec_encode_path(path) + r#"">"#@ + escape_seq(
            label,
        ) + r#"</a>"#@
    }
}

fn crumb_markup_str(path: &str, label: &str, is_last: bool) -> (r: String)
    ensures
        r@ == crumb_markup(path@, label@, is_last),
{
    let mut r = String::new();
    if is_last {
        r.append(r#"<span class="breadcrumb-current">"#);
        r.append(escape_html(label).as_str());
        r.append(r#"</span>"#);
    } else if path.unicode_len() == 0 {
        r.append(r#"<a href="/">"#);
        r.append(escape_html(label).as_str());
        r.append(r#"</a>"#);
    } else {
        r.append(r#"<a href="/dir/"#);
        r.append(encode_path(path).as_str());
        r.append(r#"">"#);
        r.append(escape_html(label).as_str());
        r.append(r#"</a>"#);
    }
    proof {
        assert(r@ =~= crumb_markup(path@, label@, is_last));
    }
    r
}

/// How many breadcrumbs a path shows: the root, then one per segment of the
/// split path.
pub open spec fn crumb_count(current: Seq<char>) -> int {
    if current.len() == 0 {
        1
    } else {
        1 + split_on(current, '/').len() as int
    }
}

/// The breadcrumb at position `idx`: the root first, then each accumulated
/// prefix of the path.
pub open spec fn crumb_item(current: Seq<char>, lang: Language, idx: int) -> Seq<char> {
    let last = idx == crumb_count(current) - 1;
    if idx == 0 {
        crumb_markup(Seq::<char>::empty(), spec_text(lang, "breadcrumb_root"@), last)
    } else {
        crumb_markup(
            join_on(split_on(current, '/').take(idx), '/'),
            split_on(current, '/')[idx - 1],
            last,
        )
    }
}

/// The whole breadcrumb trail.
pub open spec fn spec_breadcrumbs(current: Seq<char>, lang: Language) -> Seq<char> {
    join_str(
        Seq::new(crumb_count(current) as nat, |idx: int| crumb_item(current, lang, idx)),
        r#"<span class="breadcrumb-separator">/</span>"#@,
    )
}

fn breadcrumbs_str(current: &str, language: &Language) -> (r: String)
    ensures
        r@ == spec_breadcrumbs(current@, *language),
{
    let ghost target = Seq::new(
        crumb_count(current@) as nat,
        |idx: int| crumb_item(current@, *language, idx),
    );
    let mut items: Vec<String> = Vec::new();
    let root_last = current.unicode_len() == 0;
    let root = crumb_markup_str("", language.text("breadcrumb_root"), root_last);
    proof {
        reveal_strlit("");
        assert(""@ =~= Seq::<char>::empty());
    }
    items.push(root);
    proof {
        assert(views_of(items@) =~~= target.take(1));
    }
    if !root_last {
        let segs = split_slash(current);
        let mut k: usize = 0;
        while k < segs.len()
            invariant
                k <= segs@.len(),
                views_of(segs@) == split_on(current@, '/'),
                segs@.len() >= 1,
                current@.len() > 0,
                target == Seq::new(
                    crumb_count(current@) as nat,
                    |idx: int| crumb_item(current@, *language, idx),
                ),
                views_of(items@) == target.take(k as int + 1),
            decreases segs@.len() - k,
        {
            let mut prefix: Vec<String> = Vec::new();
            let need: usize = k + 1;
            let mut t: usize = 0;
            while t < need
                invariant
                    t <= need,
                    need == k + 1,
                    k < segs@.len(),
                    views_of(prefix@) == views_of(segs@).take(t as int),
                decreases need - t,
            {
                let ghost oldp = prefix@;
                prefix.push(segs[t].clone());
                proof {
                    assert(views_of(prefix@) =~~= views_of(oldp).push(segs@[t as int]@));
                    assert(views_of(segs@).take(t as int + 1) =~~= views_of(segs@).take(
                        t as int,
                    ).push(segs@[t as int]@));
                }
                t = t + 1;
            }
            let accum = crate::strings::join_slash(&prefix);
            let item = crumb_markup_str(
                accum.as_str(),
                segs[k].as_str(),
                k == segs.len() - 1,
            );
            let ghost old_items = items@;
            items.push(item);
            proof {
                assert(views_of(prefix@) =~~= split_on(current@, '/').take(k as int + 1));
                assert(views_of(items@) =~~= views_of(old_items).push(
                    crumb_item(current@, *language, k as int + 1),
                ));
                assert(target.take(k as int + 2) =~~= target.take(k as int + 1).push(
                    target[k as int + 1],
                ));
            }
            k = k + 1;
        }
        proof {
            assert(target.take(segs@.len() as int + 1) =~~= target);
        }
    } else {
        proof {
            assert(target.take(1) =~~= target);
        }
    }
    join_with(&items, r#"<span class="breadcrumb-separator">/</span>"#)
}


/// One subfolder card.
pub open spec fn folder_item_markup(name: Seq<char>, path: Seq<char>) -> Seq<char> {
    let display = if path.len() == 0 {
        "/"@
    } else {
        "/"@ + escape_seq(path)
    };
    let href = if path.len() == 0 {
        "/"@
    } else {
        "/dir/"@ + spec_encode_path(path)
    };
    r#"<a class="folder-card" href=""#@ + escape_seq(href) + r#"" data-path=""#@ + escape_seq(path)
        + r#"">
                    <span class="folder-card__icon">📁</span>
                    <span class="folder-card__meta">
                        <span class="folder-card__name">"#@ + escape_seq(name) + r#"</span>
                        <span class="folder-card__path">"#@ + display
        + r#"</span>
                    </span>
                    <span class="folder-card__arrow">→</span>
                </a>"#@
}

fn folder_item_str(entry: &DirectoryEntry) -> (r: String)
    ensures
        r@ == folder_item_markup(entry.name@, entry.path@),
{
    let path_empty = entry.path.as_str().unicode_len() == 0;
    let href: String = if path_empty {
        "/".to_owned()
    } else {
        let mut h = "/dir/".to_owned();
        h.append(encode_path(entry.path.as_str()).as_str());
        h
    };
    let display: String = if path_empty {
        "/".to_owned()
    } else {
        let mut d = "/".to_owned();
        d.append(escape_html(entry.path.as_str()).as_str());
        d
    };
    let mut r = String::new();
    r.append(r#"<a class="folder-card" href=""#);
    r.append(escape_html(href.as_str()).as_str());
    r.append(r#"" data-path=""#);
    r.append(escape_html(entry.path.as_str()).as_str());
    r.append(r#"">
                    <span class="folder-card__icon">📁</span>
                    <span class="folder-card__meta">
                        <span class="folder-card__name">"#);
    r.append(escape_html(entry.name.as_str()).as_str());
    r.append(r#"</span>
                        <span class="folder-card__path">"#);
    r.append(display.as_str());
    r.append(r#"</span>
                    </span>
                    <span class="folder-card__arrow">→</span>
                </a>"#);
    proof {
        assert(r@ =~= folder_item_markup(entry.name@, entry.path@));
    }
    r
}

/// The subfolder cards of a listing, in order.
pub open spec fn spec_folder_items(dirs: Seq<DirectoryEntry>) -> Seq<Seq<char>> {
    Seq::new(dirs.len(), |i: int| folder_item_markup(dirs[i].name@, dirs[i].path@))
}

fn folder_items_str(dirs: &Vec<DirectoryEntry>) -> (r: String)
    ensures
        r@ == join_str(spec_folder_items(dirs@), "\n"@),
{
    let mut items: Vec<String> = Vec::new();
    let mut i: usize = 0;
    proof {
        assert(views_of(items@) =~~= spec_folder_items(dirs@).take(0));
    }
    while i < dirs.len()
        invariant
            i <= dirs@.len(),
            views_of(items@) == spec_folder_items(dirs@).take(i as int),
        decreases dirs@.len() - i,
    {
        let ghost old_items = items@;
        items.push(folder_item_str(&dirs[i]));
        proof {
            assert(views_of(items@) =~~= views_of(old_items).push(
                folder_item_markup(dirs@[i as int].name@, dirs@[i as int].path@),
            ));
            assert(spec_folder_items(dirs@).take(i as int + 1) =~~= spec_folder_items(
                dirs@,
            ).take(i as int).push(spec_folder_items(dirs@)[i as int]));
        }
        i = i + 1;
    }
    proof {
        assert(spec_folder_items(dirs@).take(dirs@.len() as int) =~~= spec_folder_items(
            dirs@,
        ));
    }
    join_with(&items, "\n")
}


/// One file entry.
pub open spec fn file_item_markup(current: Seq<char>, name: Seq<char>) -> Seq<char> {
    let display = if current.len() == 0 {
        name
    } else if crate::strings::is_prefix(current + seq!['/'], name) {
        name.skip(current.len() as int + 1)
    } else {
        name
    };
    let short = crate::strings::base_name(display);
    r#"<a class="file-entry" href=""#@ + escape_seq("/view/"@ + spec_encode_path(name)) + r#"">
                    <span class="file-entry__icon">📄</span>
                    <span class="file-entry__text">
                        <span class="file-entry__name">"#@
        + escape_seq(short) + r#"</span>
                        <span class="file-entry__path">/"#@ + escape_seq(name) + r#"</span>
                    </span>
                    <span class="file-entry__arrow">→</span>
                </a>"#@
}

fn file_item_str(current: &str, name: &str) -> (r: String)
    ensures
        r@ == file_item_markup(current@, name@),
{
    let clen = current.unicode_len();
    let nlen = name.unicode_len();
    let display: &str = if clen == 0 {
        name
    } else {
        let mut pre = current.to_owned();
        pre.append("/");
        proof {
            reveal_strlit("/");
            assert("/"@ =~= seq!['/']);
            assert(pre@ == current@ + seq!['/']);
        }
        if crate::strings::str_starts_with(name, pre.as_str()) {
            name.substring_char(clen + 1, nlen)
        } else {
            name
        }
    };
    let bs = crate::strings::find_base_name_start(display);
    let short = display.substring_char(bs, display.unicode_len());
    let mut href = "/view/".to_owned();
    href.append(encode_path(name).as_str());
    let mut r = String::new();
    r.append(r#"<a class="file-entry" href=""#);
    r.append(escape_html(href.as_str()).as_str());
    r.append(r#"">
                    <span class="file-entry__icon">📄</span>
                    <span class="file-entry__text">
                        <span class="file-entry__name">"#);
    r.append(escape_html(short).as_str());
    r.append(r#"</span>
                        <span class="file-entry__path">/"#);
    r.append(escape_html(name).as_str());
    r.append(r#"</span>
                    </span>
                    <span class="file-entry__arrow">→</span>
                </a>"#);
    proof {
        assert(short@ =~= crate::strings::base_name(display@));
        assert(r@ =~= file_item_markup(current@, name@));
    }
    r
}

/// The file entries of a listing, in order.
pub open spec fn spec_file_items(current: Seq<char>, files: Seq<MarkdownFile>) -> Seq<
    Seq<char>,
> {
    Seq::new(files.len(), |i: int| file_item_markup(current, files[i].name@))
}

/// All file entries joined.
pub open spec fn spec_files_markup(current: Seq<char>, files: Seq<MarkdownFile>) -> Seq<
    char,
> {
    join_str(spec_file_items(current, files), "\n"@)
}

fn files_markup_str(current: &str, files: &Vec<MarkdownFile>) -> (r: String)
    ensures
        r@ == spec_files_markup(current@, files@),
{
    let mut items: Vec<String> = Vec::new();
    let mut i: usize = 0;
    proof {
        assert(views_of(items@) =~~= spec_file_items(current@, files@).take(0));
    }
    while i < files.len()
        invariant
            i <= files@.len(),
            views_of(items@) == spec_file_items(current@, files@).take(i as int),
        decreases files@.len() - i,
    {
        let ghost old_items = items@;
        items.push(file_item_str(current, files[i].name.as_str()));
        proof {
            assert(views_of(items@) =~~= views_of(old_items).push(
                file_item_markup(current@, files@[i as int].name@),
            ));
            assert(spec_file_items(current@, files@).take(i as int + 1) =~~= spec_file_items(
                current@,
                files@,
            ).take(i as int).push(spec_file_items(current@, files@)[i as int]));
        }
        i = i + 1;
    }
    proof {
        assert(spec_file_items(current@, files@).take(files@.len() as int)
            =~~= spec_file_items(current@, files@));
    }
    join_with(&items, "\n")
}


/// The back link to the parent directory; nothing at the root.
pub open spec fn parent_link_markup(parent: Seq<char>, lang: Language) -> Seq<char> {
    let href = if parent.len() == 0 {
        "/"@
    } else {
        "/dir/"@ + spec_encode_path(parent)
    };
    r#"<a class="back-link" href=""#@ + href + r#"">← "#@ + escape_seq(
        spec_text(lang, "back_to_parent"@),
    ) + r#"</a>"#@
}

/// The parent-link part of a listing: empty when the listing has no parent.
pub open spec fn spec_parent_part(parent: Option<String>, lang: Language) -> Seq<char> {
    match parent {
        Some(p) => parent_link_markup(p@, lang),
        None => Seq::<char>::empty(),
    }
}

fn parent_part_str(parent: &Option<String>, language: &Language) -> (r: String)
    ensures
        r@ == spec_parent_part(*parent, *language),
{
    match parent {
        Some(p) => {
            let href: String = if p.as_str().unicode_len() == 0 {
                "/".to_owned()
            } else {
                let mut h = "/dir/".to_owned();
                h.append(encode_path(p.as_str()).as_str());
                h
            };
            let mut r = String::new();
            r.append(r#"<a class="back-link" href=""#);
            r.append(href.as_str());
            r.append(r#"">← "#);
            r.append(escape_html(language.text("back_to_parent")).as_str());
            r.append(r#"</a>"#);
            proof {
                assert(r@ =~= parent_link_markup(p@, *language));
            }
            r
        },
        None => String::new(),
    }
}

/// The folders section: the grid, or a placeholder when there are none.
pub open spec fn spec_folders_section(dirs: Seq<DirectoryEntry>) -> Seq<char> {
    if dirs.len() > 0 {
        r#"<div class="folder-grid">
            "#@ + join_str(spec_folder_items(dirs), "\n"@) + r#"
        </div>"#@
    } else {
        r#"<div class="folder-empty">—</div>"#@
    }
}

fn folders_section_str(dirs: &Vec<DirectoryEntry>) -> (r: String)
    ensures
        r@ == spec_folders_section(dirs@),
{
    if dirs.len() > 0 {
        let mut r = String::new();
        r.append(r#"<div class="folder-grid">
            "#);
        r.append(folder_items_str(dirs).as_str());
        r.append(r#"
        </div>"#);
        proof {
            assert(r@ =~= spec_folders_section(dirs@));
        }
        r
    } else {
        r#"<div class="folder-empty">—</div>"#.to_owned()
    }
}

/// The files section: the list, or its empty shell.
pub open spec fn spec_files_section(current: Seq<char>, files: Seq<MarkdownFile>) -> Seq<
    char,
> {
    if files.len() > 0 {
        r#"<div class="file-list file-entries">
            "#@ + spec_files_markup(current, files) + r#"
        </div>"#@
    } else {
        r#"<div class="file-list file-entries"></div>"#@
    }
}

fn files_section_str(current: &str, files: &Vec<MarkdownFile>) -> (r: String)
    ensures
        r@ == spec_files_section(current@, files@),
{
    if files.len() > 0 {
        let mut r = String::new();
        r.append(r#"<div class="file-list file-entries">
            "#);
        r.append(files_markup_str(current, files).as_str());
        r.append(r#"
        </div>"#);
        proof {
            assert(r@ =~= spec_files_section(current@, files@));
        }
        r
    } else {
        r#"<div class="file-list file-entries"></div>"#.to_owned()
    }
}


/// The upload panel, carrying the localized strings the script shows and
/// the current path uploads land in.
pub open spec fn spec_upload_panel(current: Seq<char>, lang: Language) -> Seq<char> {
    r#"<div class="upload-card" id="upload-area" data-success=""#@
        + escape_seq(spec_text(lang, "upload_success"@))
        + r#"" data-error=""#@
        + escape_seq(spec_text(lang, "upload_error"@))
        + r#"" data-invalid=""#@
        + escape_seq(spec_text(lang, "upload_invalid_type"@))
        + r#"" data-uploading=""#@
        + escape_seq(spec_text(lang, "upload_uploading"@))
        + r#"" data-current-path=""#@
        + escape_seq(current)
        + r#"">
    <div class="upload-card__icon">📤</div>
    <div class="upload-card__content">
        <h3 class="upload-card__title">"#@
        + escape_seq(spec_text(lang, "upload_title"@))
        + r#"</h3>
        <p class="upload-card__description">"#@
        + escape_seq(spec_text(lang, "upload_instructions"@))
        + r#"</p>
        <div class="upload-card__actions">
            <button type="button" id="upload-browse" class="upload-card__button">
                <span class="button-icon">📁</span>
                <span>"#@
        + escape_seq(spec_text(lang, "upload_browse"@))
        + r#"</span>
            </button>
            <input type="file" id="file-input" accept=".md,.markdown" hidden>
        </div>
        <div class="upload-status" id="upload-status"></div>
    </div>
</div>"#@
}

fn upload_panel_str(current: &str, language: &Language) -> (r: String)
    ensures
        r@ == spec_upload_panel(current@, *language),
{
    let mut r = String::new();
    r.append(r#"<div class="upload-card" id="upload-area" data-success=""#);
    r.append(escape_html(language.text("upload_success")).as_str());
    r.append(r#"" data-error=""#);
    r.append(escape_html(language.text("upload_error")).as_str());
    r.append(r#"" data-invalid=""#);
    r.append(escape_html(language.text("upload_invalid_type")).as_str());
    r.append(r#"" data-uploading=""#);
    r.append(escape_html(language.text("upload_uploading")).as_str());
    r.append(r#"" data-current-path=""#);
    r.append(escape_html(current).as_str());
    r.append(r#"">
    <div class="upload-card__icon">📤</div>
    <div class="upload-card__content">
        <h3 class="upload-card__title">"#);
    r.append(escape_html(language.text("upload_title")).as_str());
    r.append(r#"</h3>
        <p class="upload-card__description">"#);
    r.append(escape_html(language.text("upload_instructions")).as_str());
    r.append(r#"</p>
        <div class="upload-card__actions">
            <button type="button" id="upload-browse" class="upload-card__button">
                <span class="button-icon">📁</span>
                <span>"#);
    r.append(escape_html(language.text("upload_browse")).as_str());
    r.append(r#"</span>
            </button>
            <input type="file" id="file-input" accept=".md,.markdown" hidden>
        </div>
        <div class="upload-status" id="upload-status"></div>
    </div>
</div>"#);
    proof {
        assert(r@ =~= spec_upload_panel(current@, *language));
    }
    r
}


/// The escaped label of the current path: `/` at the root, else the path
/// behind a slash.
pub open spec fn spec_current_path_label(current: Seq<char>) -> Seq<char> {
    if current.len() == 0 {
        escape_seq("/"@)
    } else {
        escape_seq("/"@ + current)
    }
}

fn current_path_label_str(current: &str) -> (r: String)
    ensures
        r@ == spec_current_path_label(current@),
{
    if current.unicode_len() == 0 {
        let e = escape_html("/");
        e
    } else {
        let mut s = "/".to_owned();
        s.append(current);
        proof {
            assert(s@ =~= "/"@ + current@);
        }
        escape_html(s.as_str())
    }
}

/// The body of the page: with dynamic loading, the navigation, upload panel
/// and sections; without it, the bare file list.
pub open spec fn spec_file_list_markup(
    listing: DirectoryListing,
    lang: Language,
    use_htmx: bool,
) -> Seq<char> {
    if use_htmx {
        let empty_class = if listing.directories@.len() > 0 || listing.files@.len() > 0 {
            " hidden"@
        } else {
            Seq::<char>::empty()
        };
        r#"<div class="directory-body" data-current-path=""#@ + escape_seq(listing.current_path@) + r#"">
    "#@
            + spec_upload_panel(listing.current_path@, lang) + r#"
    <div class="directory-navigation">
        <div class="directory-head">
            <nav class="breadcrumbs">"#@
            + spec_breadcrumbs(listing.current_path@, lang) + r#"</nav>
            "#@
            + spec_parent_part(listing.parent, lang) + r#"
        </div>
        <div class="folder-section">
            <h2>"#@
            + escape_seq(spec_text(lang, "folders_label"@)) + r#"</h2>
            "#@
            + spec_folders_section(listing.directories@) + r#"
        </div>
    </div>
    <div class="file-browser">
        <div class="empty-state"#@ + empty_class
            + r#"" id="empty-state">"#@ + escape_seq(spec_text(lang, "no_files"@))
            + r#"</div>
        <div class="section-head">
            <h2>"#@ + escape_seq(spec_text(lang, "files_heading"@))
            + r#"</h2>
            <code class="section-path">"#@ + spec_current_path_label(listing.current_path@)
            + r#"</code>
        </div>
        "#@ + spec_files_section(listing.current_path@, listing.files@)
            + r#"
    </div>
</div>"#@
    } else if listing.files@.len() > 0 {
        r#"<div class="file-browser file-browser--static">
    <div class="file-list file-entries">
        "#@ + spec_files_markup(listing.current_path@, listing.files@)
            + r#"
    </div>
</div>"#@
    } else {
        r#"<div class="file-browser file-browser--static">
    <div class="empty-state">"#@ + escape_seq(spec_text(lang, "no_files"@)) + r#"</div>
</div>"#@
    }
}

#[verifier::rlimit(30)]
fn file_list_markup_str(listing: &DirectoryListing, language: &Language, use_htmx: bool)
    -> (r: String)
    ensures
        r@ == spec_file_list_markup(*listing, *language, use_htmx),
{
    let current = listing.current_path.as_str();
    if use_htmx {
        let has_any = listing.directories.len() > 0 || listing.files.len() > 0;
        let mut r = String::new();
        r.append(r#"<div class="directory-body" data-current-path=""#);
        r.append(escape_html(current).as_str());
        r.append(r#"">
    "#);
        r.append(upload_panel_str(current, language).as_str());
        r.append(r#"
    <div class="directory-navigation">
        <div class="directory-head">
            <nav class="breadcrumbs">"#);
        r.append(breadcrumbs_str(current, language).as_str());
        r.append(r#"</nav>
            "#);
        r.append(parent_part_str(&listing.parent, language).as_str());
        r.append(r#"
        </div>
        <div class="folder-section">
            <h2>"#);
        r.append(escape_html(language.text("folders_label")).as_str());
        r.append(r#"</h2>
            "#);
        r.append(folders_section_str(&listing.directories).as_str());
        r.append(r#"
        </div>
    </div>
    <div class="file-browser">
        <div class="empty-state"#);
        if has_any {
            r.append(" hidden");
        }
        r.append(r#"" id="empty-state">"#);
        r.append(escape_html(language.text("no_files")).as_str());
        r.append(r#"</div>
        <div class="section-head">
            <h2>"#);
        r.append(escape_html(language.text("files_heading")).as_str());
        r.append(r#"</h2>
            <code class="section-path">"#);
        r.append(current_path_label_str(current).as_str());
        r.append(r#"</code>
        </div>
        "#);
        r.append(files_section_str(current, &listing.files).as_str());
        r.append(r#"
    </div>
</div>"#);
        proof {
            assert(r@ =~= spec_file_list_markup(*listing, *language, use_htmx));
        }
        r
    } else if listing.files.len() > 0 {
        let mut r = String::new();
        r.append(r#"<div class="file-browser file-browser--static">
    <div class="file-list file-entries">
        "#);
        r.append(files_markup_str(current, &listing.files).as_str());
        r.append(r#"
    </div>
</div>"#);
        proof {
            assert(r@ =~= spec_file_list_markup(*listing, *language, use_htmx));
        }
        r
    } else {
        let mut r = String::new();
        r.append(r#"<div class="file-browser file-browser--static">
    <div class="empty-state">"#);
        r.append(escape_html(language.text("no_files")).as_str());
        r.append(r#"</div>
</div>"#);
        proof {
            assert(r@ =~= spec_file_list_markup(*listing, *language, use_htmx));
        }
        r
    }
}


/// The style block that the dynamic layout adds.
pub open spec fn spec_layout_styles(use_htmx: bool) -> Seq<char> {
    if use_htmx {
        r#"
        .directory-body {
            display: flex;
            flex-direction: column;
            gap: 1.5rem;
        }

        .directory-navigation {
            background: #fafafa;
            border: 1px solid #e8e8e8;
            border-radius: 8px;
            padding: 1.5rem;
            display: flex;
            flex-direction: column;
            gap: 1.25rem;
        }

        .directory-head {
            display: flex;
            flex-direction: column;
            gap: 0.75rem;
        }

        .breadcrumbs {
            display: flex;
            flex-wrap: wrap;
            gap: 0.5rem;
            font-size: 0.875rem;
            color: #606060;
        }

        .breadcrumbs a {
            color: #0066cc;
            text-decoration: none;
            transition: color 0.15s;
        }

        .breadcrumbs a:hover {
            color: #0052a3;
        }

        .breadcrumb-current {
            color: #1a1a1a;
            font-weight: 600;
        }

        .breadcrumb-separator {
            color: #d0d0d0;
        }

        .back-link {
            font-size: 0.875rem;
            color: #606060;
            text-decoration: none;
            transition: color 0.15s;
        }

        .back-link:hover {
            color: #1a1a1a;
        }

        .folder-section h2,
        .file-browser h2 {
            font-size: 1rem;
            font-weight: 600;
            color: #1a1a1a;
        }

        .section-head {
            display: flex;
            align-items: center;
            justify-content: space-between;
            gap: 0.75rem;
        }

        .section-path {
            font-family: "SF Mono", Monaco, monospace;
            font-size: 0.75rem;
            background: #f5f5f5;
            color: #606060;
            padding: 0.25rem 0.65rem;
            border-radius: 4px;
        }

        .file-browser {
            display: flex;
            flex-direction: column;
            gap: 1rem;
            background: #ffffff;
            border: 1px solid #e8e8e8;
            border-radius: 8px;
            padding: 1.5rem;
        }

        .file-browser--static {
            background: transparent;
            border: none;
            padding: 0;
        }

        .upload-card {
            background: linear-gradient(135deg, #667eea 0%, #764ba2 100%);
            padding: 2rem;
            border-radius: 20px;
            box-shadow: 0 10px 30px rgba(102, 126, 234, 0.3);
            transition: transform 0.3s, box-shadow 0.3s;
            cursor: pointer;
            display: flex;
            gap: 1.5rem;
            align-items: flex-start;
            position: relative;
            overflow: hidden;
        }

        .upload-card::before {
            content: '';
            position: absolute;
            top: 0;
            left: 0;
            right: 0;
            bottom: 0;
            background: linear-gradient(135deg, rgba(255, 255, 255, 0.1) 0%, rgba(255, 255, 255, 0) 100%);
            pointer-events: none;
        }

        .upload-card:hover,
        .upload-card.dragover {
            transform: translateY(-4px);
            box-shadow: 0 15px 40px rgba(102, 126, 234, 0.4);
        }

        .upload-card__icon {
            font-size: 3rem;
            flex-shrink: 0;
            filter: drop-shadow(0 4px 6px rgba(0, 0, 0, 0.1));
        }

        .upload-card__content {
            flex: 1;
            position: relative;
            z-index: 1;
        }

        .upload-card__title {
            color: #ffffff;
            font-weight: 700;
            font-size: 1.4rem;
            margin: 0 0 0.5rem 0;
            text-shadow: 0 2px 4px rgba(0, 0, 0, 0.1);
        }

        .upload-card__description {
            color: rgba(255, 255, 255, 0.9);
            margin: 0 0 1.25rem 0;
            line-height: 1.5;
            font-size: 0.95rem;
        }

        .upload-card__actions {
            display: flex;
            gap: 0.75rem;
            align-items: center;
        }

        .upload-card__button {
            background: rgba(255, 255, 255, 0.95);
            color: #667eea;
            border: none;
            padding: 0.75rem 1.5rem;
            border-radius: 12px;
            font-weight: 600;
            cursor: pointer;
            transition: all 0.2s;
            display: flex;
            align-items: center;
            gap: 0.5rem;
            box-shadow: 0 4px 12px rgba(0, 0, 0, 0.1);
        }

        .upload-card__button:hover {
            background: #ffffff;
            transform: translateY(-2px);
            box-shadow: 0 6px 16px rgba(0, 0, 0, 0.15);
        }

        .upload-card__button .button-icon {
            font-size: 1.1rem;
        }

        .upload-status {
            margin-top: 1rem;
            min-height: 1.25rem;
            font-size: 0.9rem;
            padding: 0.5rem 0.75rem;
            border-radius: 8px;
            font-weight: 500;
        }

        .upload-status.success {
            background: rgba(255, 255, 255, 0.25);
            color: #ffffff;
        }

        .upload-status.error {
            background: rgba(220, 38, 38, 0.25);
            color: #ffffff;
        }

        .upload-status.info {
            background: rgba(255, 255, 255, 0.2);
            color: #ffffff;
        }

        .empty-state {
            background: rgba(148, 163, 184, 0.12);
            border-radius: 12px;
            padding: 1.25rem;
            border: 1px dashed #cbd5f5;
            color: #64748b;
            text-align: center;
            margin-bottom: 1rem;
        }

        .empty-state.hidden {
            display: none;
        }

        .folder-grid {
            display: grid;
            grid-template-columns: repeat(auto-fill, minmax(200px, 1fr));
            gap: 0.75rem;
        }

        .folder-card {
            display: flex;
            align-items: center;
            gap: 0.875rem;
            padding: 1rem 1.25rem;
            border-radius: 8px;
            text-decoration: none;
            background: #ffffff;
            border: 1px solid #e8e8e8;
            transition: all 0.15s ease;
        }

        .folder-card:hover {
            transform: translateY(-2px);
            border-color: #d0d0d0;
            box-shadow: 0 4px 12px rgba(0, 0, 0, 0.08);
        }

        .folder-card__icon {
            font-size: 1.5rem;
        }

        .folder-card__meta {
            display: flex;
            flex-direction: column;
            gap: 0.25rem;
        }

        .folder-card__name {
            font-weight: 600;
            color: #1a1a1a;
            font-size: 0.9375rem;
        }

        .folder-card__path {
            font-size: 0.75rem;
            color: #808080;
            font-family: "SF Mono", Monaco, monospace;
        }

        .folder-card__arrow {
            margin-left: auto;
            font-size: 0.875rem;
            color: #b0b0b0;
        }

        .folder-empty {
            color: #b0b0b0;
            font-style: italic;
            font-size: 0.875rem;
        }

        .file-list {
            display: flex;
            flex-direction: column;
            gap: 0.5rem;
            margin: 0;
            padding: 0;
        }

        .file-entry {
            display: flex;
            align-items: center;
            gap: 0.875rem;
            padding: 1rem 1.25rem;
            border-radius: 8px;
            border: 1px solid #e8e8e8;
            background: #ffffff;
            text-decoration: none;
            color: #1a1a1a;
            transition: all 0.15s ease;
        }

        .file-entry:hover {
            transform: translateY(-1px);
            border-color: #d0d0d0;
            box-shadow: 0 2px 8px rgba(0, 0, 0, 0.06);
        }

        .file-entry__icon {
            font-size: 1.25rem;
        }

        .file-entry__text {
            display: flex;
            flex-direction: column;
            gap: 0.25rem;
        }

        .file-entry__name {
            font-weight: 600;
            color: #1a1a1a;
            font-size: 0.9375rem;
        }

        .file-entry__path {
            font-size: 0.75rem;
            color: #808080;
            font-family: "SF Mono", Monaco, monospace;
        }

        .file-entry__arrow {
            margin-left: auto;
            color: #b0b0b0;
            font-size: 0.875rem;
        }
        "#@
    } else {
        Seq::<char>::empty()
    }
}

/// The loader script slot of the page.
pub open spec fn spec_script_part(use_htmx: bool) -> Seq<char> {
    if use_htmx {
        crate::ajax::spec_dynamic_script()
    } else {
        Seq::<char>::empty()
    }
}

/// The whole directory page around a listing.
pub open spec fn spec_render_directory_page(
    listing: DirectoryListing,
    dir_path: Seq<char>,
    lang: Language,
    use_htmx: bool,
) -> Seq<char> {
    r#"<!DOCTYPE html>
<html lang=""#@ + lang_code(lang) + r#"">
<head>
    <meta charset="UTF-8">
    <meta name="viewport" content="width=device-width, initial-scale=1.0">
    <title>"#@
        + spec_text(lang, "title_directory"@) + r#" - "#@ + escape_seq(dir_path)
        + r#"</title>
    <style>
        * { margin: 0; padding: 0; box-sizing: border-box; }

        body {
            font-family: -apple-system, BlinkMacSystemFont, "Segoe UI", Roboto, "Helvetica Neue", sans-serif;
            color: #1a1a1a;
            background: #fafafa;
            min-height: 100vh;
            padding: 2rem 1rem;
            -webkit-font-smoothing: antialiased;
        }

        .container {
            max-width: 1200px;
            margin: 0 auto;
            background: #ffffff;
            padding: 2.5rem;
            border-radius: 12px;
            border: 1px solid #e8e8e8;
            box-shadow: 0 1px 3px rgba(0, 0, 0, 0.05);
            animation: fadeIn 0.3s ease-out;
        }

        @keyframes fadeIn {
            from { opacity: 0; transform: translateY(10px); }
            to { opacity: 1; transform: translateY(0); }
        }

        .header {
            margin-bottom: 2rem;
            padding-bottom: 1.5rem;
            border-bottom: 1px solid #e8e8e8;
        }

        h1 {
            font-size: 1.75rem;
            font-weight: 600;
            display: flex;
            align-items: center;
            gap: 0.5rem;
            color: #1a1a1a;
        }

        .directory-path {
            color: #606060;
            font-size: 0.875rem;
            margin-top: 0.5rem;
        }

        .directory-path code {
            background: #f5f5f5;
            padding: 0.25rem 0.5rem;
            border-radius: 3px;
            font-family: "SF Mono", Monaco, monospace;
            color: #404040;
            font-size: 0.8125rem;
        }

        .empty-state {
            background: #f8f8f8;
            border-radius: 8px;
            padding: 2rem;
            border: 1px dashed #d0d0d0;
            color: #606060;
            text-align: center;
            margin-bottom: 1rem;
        }

        .empty-state.hidden {
            display: none;
        }

        "#@ + spec_layout_styles(use_htmx) + r#"

        @media (max-width: 768px) {
            body {
                padding: 1rem;
            }

            .container {
                padding: 1.5rem;
                border-radius: 8px;
            }

            h1 {
                font-size: 1.5rem;
            }

            .upload-card {
                flex-direction: column;
                padding: 1.5rem;
                gap: 1rem;
            }

            .upload-card__icon {
                font-size: 2.5rem;
            }

            .upload-card__title {
                font-size: 1.2rem;
            }

            .upload-card__description {
                font-size: 0.875rem;
            }

            .upload-card__button {
                padding: 0.65rem 1.2rem;
                font-size: 0.875rem;
            }

            .folder-grid {
                grid-template-columns: 1fr;
                gap: 0.5rem;
            }

            .file-entry,
            .folder-card {
                padding: 0.875rem 1rem;
            }
        }
    </style>
    "#@
        + spec_script_part(use_htmx) + r#"
</head>
<body>
    <div class="container">
        <div class="header">
            <h1>📁 "#@
        + spec_text(lang, "directory_label"@) + r#"</h1>
            <div class="directory-path">"#@
        + spec_text(lang, "directory_path"@) + r#": <code>"#@ + escape_seq(dir_path)
        + r#"</code></div>
        </div>
        "#@ + spec_file_list_markup(listing, lang, use_htmx)
        + r#"
    </div>
</body>
</html>"#@
}

/// A directory listing page with a navigable folder structure. Its text is
/// exactly what the listing, the served directory's path, the language and
/// the loading mode determine.
#[verifier::rlimit(30)]
pub fn render_directory_page(
    listing: &DirectoryListing,
    dir_path: &str,
    language: &Language,
    use_htmx: bool,
) -> (r: String)
    ensures
        r@ == spec_render_directory_page(*listing, dir_path@, *language, use_htmx),
{
    let mut r = String::new();
    r.append(r#"<!DOCTYPE html>
<html lang=""#);
    r.append(lang_code_str(language));
    r.append(r#"">
<head>
    <meta charset="UTF-8">
    <meta name="viewport" content="width=device-width, initial-scale=1.0">
    <title>"#);
    r.append(language.text("title_directory"));
    r.append(r#" - "#);
    r.append(escape_html(dir_path).as_str());
    r.append(r#"</title>
    <style>
        * { margin: 0; padding: 0; box-sizing: border-box; }

        body {
            font-family: -apple-system, BlinkMacSystemFont, "Segoe UI", Roboto, "Helvetica Neue", sans-serif;
            color: #1a1a1a;
            background: #fafafa;
            min-height: 100vh;
            padding: 2rem 1rem;
            -webkit-font-smoothing: antialiased;
        }

        .container {
            max-width: 1200px;
            margin: 0 auto;
            background: #ffffff;
            padding: 2.5rem;
            border-radius: 12px;
            border: 1px solid #e8e8e8;
            box-shadow: 0 1px 3px rgba(0, 0, 0, 0.05);
            animation: fadeIn 0.3s ease-out;
        }

        @keyframes fadeIn {
            from { opacity: 0; transform: translateY(10px); }
            to { opacity: 1; transform: translateY(0); }
        }

        .header {
            margin-bottom: 2rem;
            padding-bottom: 1.5rem;
            border-bottom: 1px solid #e8e8e8;
        }

        h1 {
            font-size: 1.75rem;
            font-weight: 600;
            display: flex;
            align-items: center;
            gap: 0.5rem;
            color: #1a1a1a;
        }

        .directory-path {
            color: #606060;
            font-size: 0.875rem;
            margin-top: 0.5rem;
        }

        .directory-path code {
            background: #f5f5f5;
            padding: 0.25rem 0.5rem;
            border-radius: 3px;
            font-family: "SF Mono", Monaco, monospace;
            color: #404040;
            font-size: 0.8125rem;
        }

        .empty-state {
            background: #f8f8f8;
            border-radius: 8px;
            padding: 2rem;
            border: 1px dashed #d0d0d0;
            color: #606060;
            text-align: center;
            margin-bottom: 1rem;
        }

        .empty-state.hidden {
            display: none;
        }

        "#);
    if use_htmx {
        r.append(r#"
        .directory-body {
            display: flex;
            flex-direction: column;
            gap: 1.5rem;
        }

        .directory-navigation {
            background: #fafafa;
            border: 1px solid #e8e8e8;
            border-radius: 8px;
            padding: 1.5rem;
            display: flex;
            flex-direction: column;
            gap: 1.25rem;
        }

        .directory-head {
            display: flex;
            flex-direction: column;
            gap: 0.75rem;
        }

        .breadcrumbs {
            display: flex;
            flex-wrap: wrap;
            gap: 0.5rem;
            font-size: 0.875rem;
            color: #606060;
        }

        .breadcrumbs a {
            color: #0066cc;
            text-decoration: none;
            transition: color 0.15s;
        }

        .breadcrumbs a:hover {
            color: #0052a3;
        }

        .breadcrumb-current {
            color: #1a1a1a;
            font-weight: 600;
        }

        .breadcrumb-separator {
            color: #d0d0d0;
        }

        .back-link {
            font-size: 0.875rem;
            color: #606060;
            text-decoration: none;
            transition: color 0.15s;
        }

        .back-link:hover {
            color: #1a1a1a;
        }

        .folder-section h2,
        .file-browser h2 {
            font-size: 1rem;
            font-weight: 600;
            color: #1a1a1a;
        }

        .section-head {
            display: flex;
            align-items: center;
            justify-content: space-between;
            gap: 0.75rem;
        }

        .section-path {
            font-family: "SF Mono", Monaco, monospace;
            font-size: 0.75rem;
            background: #f5f5f5;
            color: #606060;
            padding: 0.25rem 0.65rem;
            border-radius: 4px;
        }

        .file-browser {
            display: flex;
            flex-direction: column;
            gap: 1rem;
            background: #ffffff;
            border: 1px solid #e8e8e8;
            border-radius: 8px;
            padding: 1.5rem;
        }

        .file-browser--static {
            background: transparent;
            border: none;
            padding: 0;
        }

        .upload-card {
            background: linear-gradient(135deg, #667eea 0%, #764ba2 100%);
            padding: 2rem;
            border-radius: 20px;
            box-shadow: 0 10px 30px rgba(102, 126, 234, 0.3);
            transition: transform 0.3s, box-shadow 0.3s;
            cursor: pointer;
            display: flex;
            gap: 1.5rem;
            align-items: flex-start;
            position: relative;
            overflow: hidden;
        }

        .upload-card::before {
            content: '';
            position: absolute;
            top: 0;
            left: 0;
            right: 0;
            bottom: 0;
            background: linear-gradient(135deg, rgba(255, 255, 255, 0.1) 0%, rgba(255, 255, 255, 0) 100%);
            pointer-events: none;
        }

        .upload-card:hover,
        .upload-card.dragover {
            transform: translateY(-4px);
            box-shadow: 0 15px 40px rgba(102, 126, 234, 0.4);
        }

        .upload-card__icon {
            font-size: 3rem;
            flex-shrink: 0;
            filter: drop-shadow(0 4px 6px rgba(0, 0, 0, 0.1));
        }

        .upload-card__content {
            flex: 1;
            position: relative;
            z-index: 1;
        }

        .upload-card__title {
            color: #ffffff;
            font-weight: 700;
            font-size: 1.4rem;
            margin: 0 0 0.5rem 0;
            text-shadow: 0 2px 4px rgba(0, 0, 0, 0.1);
        }

        .upload-card__description {
            color: rgba(255, 255, 255, 0.9);
            margin: 0 0 1.25rem 0;
            line-height: 1.5;
            font-size: 0.95rem;
        }

        .upload-card__actions {
            display: flex;
            gap: 0.75rem;
            align-items: center;
        }

        .upload-card__button {
            background: rgba(255, 255, 255, 0.95);
            color: #667eea;
            border: none;
            padding: 0.75rem 1.5rem;
            border-radius: 12px;
            font-weight: 600;
            cursor: pointer;
            transition: all 0.2s;
            display: flex;
            align-items: center;
            gap: 0.5rem;
            box-shadow: 0 4px 12px rgba(0, 0, 0, 0.1);
        }

        .upload-card__button:hover {
            background: #ffffff;
            transform: translateY(-2px);
            box-shadow: 0 6px 16px rgba(0, 0, 0, 0.15);
        }

        .upload-card__button .button-icon {
            font-size: 1.1rem;
        }

        .upload-status {
            margin-top: 1rem;
            min-height: 1.25rem;
            font-size: 0.9rem;
            padding: 0.5rem 0.75rem;
            border-radius: 8px;
            font-weight: 500;
        }

        .upload-status.success {
            background: rgba(255, 255, 255, 0.25);
            color: #ffffff;
        }

        .upload-status.error {
            background: rgba(220, 38, 38, 0.25);
            color: #ffffff;
        }

        .upload-status.info {
            background: rgba(255, 255, 255, 0.2);
            color: #ffffff;
        }

        .empty-state {
            background: rgba(148, 163, 184, 0.12);
            border-radius: 12px;
            padding: 1.25rem;
            border: 1px dashed #cbd5f5;
            color: #64748b;
            text-align: center;
            margin-bottom: 1rem;
        }

        .empty-state.hidden {
            display: none;
        }

        .folder-grid {
            display: grid;
            grid-template-columns: repeat(auto-fill, minmax(200px, 1fr));
            gap: 0.75rem;
        }

        .folder-card {
            display: flex;
            align-items: center;
            gap: 0.875rem;
            padding: 1rem 1.25rem;
            border-radius: 8px;
            text-decoration: none;
            background: #ffffff;
            border: 1px solid #e8e8e8;
            transition: all 0.15s ease;
        }

        .folder-card:hover {
            transform: translateY(-2px);
            border-color: #d0d0d0;
            box-shadow: 0 4px 12px rgba(0, 0, 0, 0.08);
        }

        .folder-card__icon {
            font-size: 1.5rem;
        }

        .folder-card__meta {
            display: flex;
            flex-direction: column;
            gap: 0.25rem;
        }

        .folder-card__name {
            font-weight: 600;
            color: #1a1a1a;
            font-size: 0.9375rem;
        }

        .folder-card__path {
            font-size: 0.75rem;
            color: #808080;
            font-family: "SF Mono", Monaco, monospace;
        }

        .folder-card__arrow {
            margin-left: auto;
            font-size: 0.875rem;
            color: #b0b0b0;
        }

        .folder-empty {
            color: #b0b0b0;
            font-style: italic;
            font-size: 0.875rem;
        }

        .file-list {
            display: flex;
            flex-direction: column;
            gap: 0.5rem;
            margin: 0;
            padding: 0;
        }

        .file-entry {
            display: flex;
            align-items: center;
            gap: 0.875rem;
            padding: 1rem 1.25rem;
            border-radius: 8px;
            border: 1px solid #e8e8e8;
            background: #ffffff;
            text-decoration: none;
            color: #1a1a1a;
            transition: all 0.15s ease;
        }

        .file-entry:hover {
            transform: translateY(-1px);
            border-color: #d0d0d0;
            box-shadow: 0 2px 8px rgba(0, 0, 0, 0.06);
        }

        .file-entry__icon {
            font-size: 1.25rem;
        }

        .file-entry__text {
            display: flex;
            flex-direction: column;
            gap: 0.25rem;
        }

        .file-entry__name {
            font-weight: 600;
            color: #1a1a1a;
            font-size: 0.9375rem;
        }

        .file-entry__path {
            font-size: 0.75rem;
            color: #808080;
            font-family: "SF Mono", Monaco, monospace;
        }

        .file-entry__arrow {
            margin-left: auto;
            color: #b0b0b0;
            font-size: 0.875rem;
        }
        "#);
    }
    r.append(r#"

        @media (max-width: 768px) {
            body {
                padding: 1rem;
            }

            .container {
                padding: 1.5rem;
                border-radius: 8px;
            }

            h1 {
                font-size: 1.5rem;
            }

            .upload-card {
                flex-direction: column;
                padding: 1.5rem;
                gap: 1rem;
            }

            .upload-card__icon {
                font-size: 2.5rem;
            }

            .upload-card__title {
                font-size: 1.2rem;
            }

            .upload-card__description {
                font-size: 0.875rem;
            }

            .upload-card__button {
                padding: 0.65rem 1.2rem;
                font-size: 0.875rem;
            }

            .folder-grid {
                grid-template-columns: 1fr;
                gap: 0.5rem;
            }

            .file-entry,
            .folder-card {
                padding: 0.875rem 1rem;
            }
        }
    </style>
    "#);
    if use_htmx {
        r.append(crate::ajax::dynamic_script());
    }
    r.append(r#"
</head>
<body>
    <div class="container">
        <div class="header">
            <h1>📁 "#);
    r.append(language.text("directory_label"));
    r.append(r#"</h1>
            <div class="directory-path">"#);
    r.append(language.text("directory_path"));
    r.append(r#": <code>"#);
    r.append(escape_html(dir_path).as_str());
    r.append(r#"</code></div>
        </div>
        "#);
    r.append(file_list_markup_str(listing, language, use_htmx).as_str());
    r.append(r#"
    </div>
</body>
</html>"#);
    proof {
        assert(r@ =~= spec_render_directory_page(*listing, dir_path@, *language, use_htmx));
    }
    r
}

} // verus!
