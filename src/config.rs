use vstd::prelude::*;

use crate::text::{contains, seq_contains};
use crate::utils::{parse_url, parsed_url};

verus! {

/// Settings of the whole process.
pub struct AppConfig {
    pub server: ServerConfig,
    pub couchdb: CouchDbConfig,
}

/// Where the proxy listens.
pub struct ServerConfig {
    pub host: String,
    pub port: u16,
}

/// Where the backend is and how to authenticate to it.
pub struct CouchDbConfig {
    pub url: String,
    pub username: String,
    pub password: String,
}

/// `s` with a `/` appended unless it already ends with one.
pub open spec fn with_trailing_slash(s: Seq<char>) -> Seq<char> {
    if s.len() > 0 && s.last() == '/' {
        s
    } else {
        s + seq!['/']
    }
}

/// Returns `s`, ending with `/`.
pub fn ensure_trailing_slash(s: String) -> (r: String)
    ensures
        r@ == with_trailing_slash(s@),
{
    let n = s.as_str().unicode_len();
    if n > 0 && s.as_str().get_char(n - 1) == '/' {
        s
    } else {
        let mut r = s;
        r.append("/");
        proof {
            reveal_strlit("/");
        }
        r
    }
}

impl CouchDbConfig {
    /// The base URL always ends with `/`, so that paths can be appended to it.
    pub open spec fn wf(&self) -> bool {
        self.url@.len() > 0 && self.url@.last() == '/'
    }

    /// A backend configuration whose base URL is `url` with a trailing `/`.
    pub fn new(url: &str, username: &str, password: &str) -> (r: CouchDbConfig)
        ensures
            r.wf(),
            r.url@ == with_trailing_slash(url@),
            r.username@ == username@,
            r.password@ == password@,
    {
        CouchDbConfig {
            url: ensure_trailing_slash(url.to_owned()),
            username: username.to_owned(),
            password: password.to_owned(),
        }
    }
}

/// The backend settings that the environment values give: credentials written
/// into an auth-bearing URL win over the separate ones, and the URL is then
/// stripped of them and ends with `/`.
pub open spec fn spec_backend_settings(
    url: Seq<char>,
    username: Seq<char>,
    password: Seq<char>,
) -> (Seq<char>, Seq<char>, Seq<char>) {
    if seq_contains(url, seq!['@']) && parsed_url(url) is Some {
        let (user, pass, bare) = parsed_url(url)->Some_0;
        let username = if user.len() > 0 { user } else { username };
        let password = if user.len() > 0 && pass is Some { pass->Some_0 } else { password };
        (with_trailing_slash(bare), username, password)
    } else {
        (with_trailing_slash(url), username, password)
    }
}

/// Whether every character of `s` is an ASCII digit.
pub open spec fn all_digits(s: Seq<char>) -> bool {
    forall|i: int| 0 <= i < s.len() ==> '0' <= #[trigger] s[i] && s[i] <= '9'
}

/// The number that a run of decimal digits denotes.
pub open spec fn digits_value(s: Seq<char>) -> nat
    decreases s.len(),
{
    if s.len() == 0 {
        0
    } else {
        digits_value(s.drop_last()) * 10 + (s.last() as nat - '0' as nat) as nat
    }
}

/// The digits of a port number: the text without its optional leading `+`.
pub open spec fn port_digits(s: Seq<char>) -> Seq<char> {
    if s.len() > 0 && s[0] == '+' {
        s.subrange(1, s.len() as int)
    } else {
        s
    }
}

/// The port that `s` denotes: decimal digits with an optional leading `+`,
/// at most 65535.
pub open spec fn spec_port(s: Seq<char>) -> Option<u16> {
    let d = port_digits(s);
    if d.len() > 0 && all_digits(d) && digits_value(d) <= u16::MAX {
        Some(digits_value(d) as u16)
    } else {
        None
    }
}

proof fn lemma_digits_value_grows(s: Seq<char>, n: int)
    requires
        0 <= n <= s.len(),
        all_digits(s),
    ensures
        digits_value(s.subrange(0, n)) <= digits_value(s),
    decreases s.len() - n,
{
    if n < s.len() {
        let t = s.subrange(0, n + 1);
        assert(t.drop_last() =~= s.subrange(0, n));
        assert(all_digits(t));
        lemma_digits_value_grows(s, n + 1);
    } else {
        assert(s.subrange(0, n) =~= s);
    }
}

/// Reads a port number.
pub fn parse_port(s: &str) -> (r: Option<u16>)
    ensures
        r == spec_port(s@),
{
    let n = s.unicode_len();
    let start: usize = if n > 0 && s.get_char(0) == '+' { 1 } else { 0 };
    let ghost d = port_digits(s@);
    assert(d =~= s@.subrange(start as int, n as int));
    if start == n {
        return None;
    }
    let mut value: u32 = 0;
    let mut i: usize = start;
    while i < n
        invariant
            start <= i <= n,
            n == s@.len(),
            d == s@.subrange(start as int, n as int),
            d == port_digits(s@),
            all_digits(d.subrange(0, i - start)),
            value as nat == digits_value(d.subrange(0, i - start)),
            value <= u16::MAX,
        decreases n - i,
    {
        let c = s.get_char(i);
        let k = i - start;
        proof {
            assert(d.subrange(0, k + 1).drop_last() =~= d.subrange(0, k as int));
            assert(d[k as int] == c);
        }
        if c < '0' || c > '9' {
            assert(!all_digits(d));
            return None;
        }
        let digit = (c as u32) - ('0' as u32);
        let next = value * 10 + digit;
        if next > 65535 {
            proof {
                assert(all_digits(d.subrange(0, k + 1)));
                assert(digits_value(d.subrange(0, k + 1)) == next);
                if all_digits(d) {
                    lemma_digits_value_grows(d, k + 1);
                }
            }
            return None;
        }
        value = next;
        i += 1;
        proof {
            assert(all_digits(d.subrange(0, i - start)));
        }
    }
    assert(d.subrange(0, n - start) =~= d);
    Some(value as u16)
}

/// The default of each environment value.
pub open spec fn or_default(v: Option<String>, d: Seq<char>) -> Seq<char> {
    match v {
        Some(s) => s@,
        None => d,
    }
}

fn value_or(v: Option<String>, d: &str) -> (r: String)
    ensures
        r@ == or_default(v, d@),
{
    match v {
        Some(s) => s,
        None => d.to_owned(),
    }
}

impl AppConfig {
    /// Builds the configuration from environment values (`None` where a
    /// variable is unset): the backend URL, user and password, the listen host
    /// and the listen port. A port that is not a port number counts as unset.
    pub fn from_values(
        couchdb_url: Option<String>,
        couchdb_user: Option<String>,
        couchdb_password: Option<String>,
        host: Option<String>,
        port: Option<String>,
    ) -> (r: AppConfig)
        ensures
            r.couchdb.wf(),
            (r.couchdb.url@, r.couchdb.username@, r.couchdb.password@) == spec_backend_settings(
                or_default(couchdb_url, "http://couchdb:5984"@),
                or_default(couchdb_user, "admin"@),
                or_default(couchdb_password, "secret"@),
            ),
            r.server.host@ == or_default(host, "0.0.0.0"@),
            r.server.port == match port {
                Some(p) => match spec_port(p@) {
                    Some(n) => n,
                    None => 3000u16,
                },
                None => 3000u16,
            },
    {
        let url = value_or(couchdb_url, "http://couchdb:5984");
        let mut username = value_or(couchdb_user, "admin");
        let mut password = value_or(couchdb_password, "secret");
        let mut bare = url;
        proof {
            reveal_strlit("@");
            assert("@"@ =~= seq!['@']);
        }
        if contains(bare.as_str(), "@") {
            match parse_url(bare.as_str()) {
                Some(parts) => {
                    if parts.username.as_str().unicode_len() > 0 {
                        username = parts.username;
                        match parts.password {
                            Some(p) => {
                                password = p;
                            },
                            None => {},
                        }
                    }
                    bare = parts.without_credentials;
                },
                None => {},
            }
        }
        let port = match port {
            Some(p) => match parse_port(p.as_str()) {
                Some(n) => n,
                None => 3000u16,
            },
            None => 3000u16,
        };
        AppConfig {
            server: ServerConfig { host: value_or(host, "0.0.0.0"), port },
            couchdb: CouchDbConfig { url: ensure_trailing_slash(bare), username, password },
        }
    }
}

} // verus!
