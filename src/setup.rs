use vstd::prelude::*;
use vstd::string::*;

use crate::text::{decimal, push_decimal};
use crate::utils::{parse_url, parsed_url};

verus! {

/// The optional host and port a client asks the setup URI to point at.
pub struct SetupUriQuery {
    pub host: Option<String>,
    pub port: Option<u16>,
}

/// What a sync client needs to configure itself against the proxy.
pub struct SetupUriResponse {
    pub username: String,
    pub password: String,
    pub remote_uri: String,
    pub setup_uri: String,
}

/// The URI through which a client reaches the proxied backend with the given
/// credentials.
pub open spec fn spec_setup_uri(username: Seq<char>, password: Seq<char>, host: Seq<char>, port: nat) -> Seq<char> {
    "http://"@ + username + ":"@ + password + "@"@ + host + ":"@ + decimal(port) + "/db"@
}

pub open spec fn missing_credentials_message() -> Seq<char> {
    "Authentication credentials not available"@
}

pub open spec fn invalid_uri_message() -> Seq<char> {
    "Failed to generate valid setup URI"@
}

/// Builds the setup answer from the backend credentials (if any), the backend
/// URL, the client's query and the port used when the query names none. The
/// host defaults to `localhost`. A URI that does not parse is refused.
pub fn setup_uri_response(
    credentials: Option<(String, String)>,
    couchdb_url: &str,
    query: SetupUriQuery,
    default_port: u16,
) -> (r: Result<SetupUriResponse, String>)
    ensures
        credentials is None ==> (r matches Err(m) && m@ == missing_credentials_message()),
        credentials matches Some((u, p)) ==> ({
            let host = match query.host {
                Some(h) => h@,
                None => "localhost"@,
            };
            let port = match query.port {
                Some(n) => n,
                None => default_port,
            };
            let uri = spec_setup_uri(u@, p@, host, port as nat);
            if parsed_url(uri) is None {
                (r matches Err(m) && m@ == invalid_uri_message())
            } else {
                (r matches Ok(s) && s.username@ == u@ && s.password@ == p@ && s.remote_uri@ == couchdb_url@
                    && s.setup_uri@ == uri)
            }
        }),
{
    let (username, password) = match credentials {
        Some(c) => c,
        None => return Err("Authentication credentials not available".to_owned()),
    };
    let host = match query.host {
        Some(h) => h,
        None => "localhost".to_owned(),
    };
    let port = match query.port {
        Some(n) => n,
        None => default_port,
    };
    let mut uri = "http://".to_owned();
    uri.append(username.as_str());
    uri.append(":");
    uri.append(password.as_str());
    uri.append("@");
    uri.append(host.as_str());
    uri.append(":");
    push_decimal(&mut uri, port as u64);
    uri.append("/db");
    if parse_url(uri.as_str()).is_none() {
        return Err("Failed to generate valid setup URI".to_owned());
    }
    Ok(SetupUriResponse { username, password, remote_uri: couchdb_url.to_owned(), setup_uri: uri })
}

} // verus!
