//! Server configuration and the plain response values the request layer
//! sends back. Route dispatch and the sockets themselves live outside the
//! verified core.

use vstd::prelude::*;

use crate::directory::MarkdownFile;
use crate::strings::views_of;

verus! {

/// The list of known logical paths, as an API response.
pub struct FilesResponse {
    pub files: Vec<String>,
}

/// The raw text of one document, as an API response.
pub struct MarkdownResponse {
    pub markdown: String,
}

/// The names of the index entries, in index order: what the file-listing
/// API returns.
pub fn file_names(files: &Vec<MarkdownFile>) -> (r: Vec<String>)
    ensures
        views_of(r@) == crate::directory::mf_views(files@).map_values(
            |v: crate::directory::MarkdownFileView| v.name,
        ),
{
    let mut r: Vec<String> = Vec::new();
    let mut i: usize = 0;
    let ghost target = crate::directory::mf_views(files@).map_values(
        |v: crate::directory::MarkdownFileView| v.name,
    );
    proof {
        assert(views_of(r@) =~~= target.take(0));
    }
    while i < files.len()
        invariant
            i <= files@.len(),
            target == crate::directory::mf_views(files@).map_values(
                |v: crate::directory::MarkdownFileView| v.name,
            ),
            views_of(r@) == target.take(i as int),
        decreases files@.len() - i,
    {
        let ghost oldr = r@;
        r.push(files[i].name.clone());
        proof {
            assert(views_of(r@) =~~= views_of(oldr).push(files@[i as int].name@));
            assert(target.take(i as int + 1) =~~= target.take(i as int).push(
                files@[i as int].name@,
            ));
        }
        i = i + 1;
    }
    proof {
        assert(target.take(files@.len() as int) =~~= target);
    }
    r
}

/// The decimal digits of `n`, most significant first.
pub open spec fn dec_digits(n: nat) -> Seq<char>
    decreases n,
{
    if n < 10 {
        seq![dec_digit_char(n)]
    } else {
        dec_digits(n / 10).push(dec_digit_char(n % 10))
    }
}

/// The character of one decimal digit.
pub open spec fn dec_digit_char(d: nat) -> char {
    (48 + d) as char
}

fn digit_str(d: u16) -> (r: &'static str)
    requires
        d < 10,
    ensures
        r@ == seq![dec_digit_char(d as nat)],
{
    proof {
        reveal_strlit("0");
        reveal_strlit("1");
        reveal_strlit("2");
        reveal_strlit("3");
        reveal_strlit("4");
        reveal_strlit("5");
        reveal_strlit("6");
        reveal_strlit("7");
        reveal_strlit("8");
        reveal_strlit("9");
    }
    match d {
        0 => "0",
        1 => "1",
        2 => "2",
        3 => "3",
        4 => "4",
        5 => "5",
        6 => "6",
        7 => "7",
        8 => "8",
        _ => {
            proof {
                assert(d == 9);
            }
            "9"
        },
    }
}

fn push_decimal(s: &mut String, n: u16)
    ensures
        final(s)@ == old(s)@ + dec_digits(n as nat),
    decreases n,
{
    if n >= 10 {
        push_decimal(s, n / 10);
    }
    let ghost mid = s@;
    s.append(digit_str(n % 10));
    proof {
        if n < 10 {
            assert(s@ =~= old(s)@ + dec_digits(n as nat));
        } else {
            assert(s@ =~= old(s)@ + dec_digits(n as nat)) by {
                assert(mid == old(s)@ + dec_digits((n / 10) as nat));
                assert(dec_digits(n as nat) == dec_digits((n / 10) as nat).push(
                    dec_digit_char((n % 10) as nat),
                ));
                assert(old(s)@ + dec_digits((n / 10) as nat).push(
                    dec_digit_char((n % 10) as nat),
                ) =~= (old(s)@ + dec_digits((n / 10) as nat)) + seq![
                    dec_digit_char((n % 10) as nat),
                ]);
            }
        }
    }
}

/// Where the server listens.
pub struct ServerConfig {
    pub host: String,
    pub port: u16,
}

impl ServerConfig {
    /// A configuration for the given host and port.
    pub fn new(host: String, port: u16) -> (r: Self)
        ensures
            r.host@ == host@,
            r.port == port,
    {
        ServerConfig { host, port }
    }

    /// The bind address: host, a colon, and the port in decimal.
    pub fn address(&self) -> (r: String)
        ensures
            r@ == self.host@ + seq![':'] + dec_digits(self.port as nat),
    {
        let mut s = self.host.clone();
        s.append(":");
        proof {
            reveal_strlit(":");
            assert(":"@ =~= seq![':']);
        }
        push_decimal(&mut s, self.port);
        proof {
            assert(s@ =~= self.host@ + seq![':'] + dec_digits(self.port as nat));
        }
        s
    }
}

impl Default for ServerConfig {
    /// The local loopback host on the usual development port.
    fn default() -> (r: Self)
        ensures
            r.host@ == "127.0.0.1"@,
            r.port == 3000,
    {
        ServerConfig { host: "127.0.0.1".to_owned(), port: 3000 }
    }
}

} // verus!
