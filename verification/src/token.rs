//! Credentials and the per-request authorization header. The credentials are
//! immutable for the run; absent user token and secret signal the
//! unauthenticated (request-token) phase. The header is a pure function of
//! the credentials, the nonce and the timestamp; the driver draws the nonce
//! and reads the clock.

use vstd::prelude::*;
use vstd::string::StrSliceExecFns;
use vstd::string::StringExecFns;

use crate::text::{find_char, lemma_find_range, spec_dec, spec_find, u64_to_string};

verus! {

/// The credentials of the run: the consumer key and secret, and, once
/// authorized, the user token and secret.
pub struct TokenInfo {
    pub client_token: String,
    pub client_secret: String,
    pub user_token: Option<String>,
    pub user_secret: Option<String>,
}

/// The characters of an optional credential: empty when absent.
pub open spec fn opt_str_view(o: Option<String>) -> Seq<char> {
    match o {
        Some(s) => s@,
        None => Seq::empty(),
    }
}

/// The plaintext-signed authorization header of one request.
pub open spec fn spec_authorization_header(
    client_token: Seq<char>,
    client_secret: Seq<char>,
    user_token: Seq<char>,
    user_secret: Seq<char>,
    nonce: Seq<char>,
    timestamp: int,
) -> Seq<char> {
    "OAuth realm=\"Schoology API\",oauth_consumer_key=\""@ + client_token
        + "\",oauth_token=\""@ + user_token + "\",oauth_nonce=\""@ + nonce
        + "\",oauth_timestamp=\""@ + spec_dec(timestamp)
        + "\",oauth_signature_method=\"PLAINTEXT\",oauth_version=\"1.0\",oauth_signature=\""@
        + client_secret + "%26"@ + user_secret + "\""@
}

impl TokenInfo {
    /// Credentials of an authorized user.
    pub fn new(
        app_token: String,
        app_secret: String,
        user_token: String,
        user_secret: String,
    ) -> (r: TokenInfo)
        ensures
            r == (TokenInfo {
                client_token: app_token,
                client_secret: app_secret,
                user_token: Some(user_token),
                user_secret: Some(user_secret),
            }),
    {
        TokenInfo {
            client_token: app_token,
            client_secret: app_secret,
            user_token: Some(user_token),
            user_secret: Some(user_secret),
        }
    }

    /// Credentials of the request-token phase, before any user authorized.
    pub fn new_no_user(app_token: String, app_secret: String) -> (r: TokenInfo)
        ensures
            r == (TokenInfo {
                client_token: app_token,
                client_secret: app_secret,
                user_token: None,
                user_secret: None,
            }),
    {
        TokenInfo {
            client_token: app_token,
            client_secret: app_secret,
            user_token: None,
            user_secret: None,
        }
    }

    /// The authorization header a request carries, per
    /// [`spec_authorization_header`]; the caller draws the `nonce` and reads
    /// the clock for `timestamp`.
    pub fn authorization_header(&self, nonce: &str, timestamp: u64) -> (r: String)
        ensures
            r@ == spec_authorization_header(
                self.client_token@,
                self.client_secret@,
                opt_str_view(self.user_token),
                opt_str_view(self.user_secret),
                nonce@,
                timestamp as int,
            ),
    {
        let mut out = String::new();
        out.append("OAuth realm=\"Schoology API\",oauth_consumer_key=\"");
        out.append(self.client_token.as_str());
        out.append("\",oauth_token=\"");
        match &self.user_token {
            Some(t) => out.append(t.as_str()),
            None => {},
        }
        out.append("\",oauth_nonce=\"");
        out.append(nonce);
        out.append("\",oauth_timestamp=\"");
        out.append(u64_to_string(timestamp).as_str());
        out.append(
            "\",oauth_signature_method=\"PLAINTEXT\",oauth_version=\"1.0\",oauth_signature=\"",
        );
        out.append(self.client_secret.as_str());
        out.append("%26");
        match &self.user_secret {
            Some(s) => out.append(s.as_str()),
            None => {},
        }
        out.append("\"");
        proof {
            assert(out@ =~= spec_authorization_header(
                self.client_token@,
                self.client_secret@,
                opt_str_view(self.user_token),
                opt_str_view(self.user_secret),
                nonce@,
                timestamp as int,
            ));
        }
        out
    }
}

/// The value carried by one `key=value` pair of a token response: the text
/// between its first and second `=`, or all after the first when no second
/// follows; a part without `=` carries none.
pub open spec fn spec_pair_value(part: Seq<char>) -> Option<Seq<char>> {
    match spec_find(part, '=') {
        None => None,
        Some(i) => {
            let rest = part.subrange(i + 1, part.len() as int);
            match spec_find(rest, '=') {
                None => Some(rest),
                Some(j) => Some(rest.subrange(0, j)),
            }
        },
    }
}

/// The first `&`-separated part of a token response: up to the first `&`, or
/// the whole response without one.
pub open spec fn spec_first_part(s: Seq<char>) -> Seq<char> {
    match spec_find(s, '&') {
        None => s,
        Some(i) => s.subrange(0, i),
    }
}

/// The second `&`-separated part of a token response, if any.
pub open spec fn spec_second_part(s: Seq<char>) -> Option<Seq<char>> {
    match spec_find(s, '&') {
        None => None,
        Some(i) => Some(spec_first_part(s.subrange(i + 1, s.len() as int))),
    }
}

/// The values of the first two pairs of a token response: what the
/// authorization flow reads as the token and the secret.
pub open spec fn spec_token_values(s: Seq<char>) -> (Option<Seq<char>>, Option<Seq<char>>) {
    (
        spec_pair_value(spec_first_part(s)),
        match spec_second_part(s) {
            None => None,
            Some(p) => spec_pair_value(p),
        },
    )
}

/// The value of one `key=value` pair, as given by [`spec_pair_value`].
fn pair_value(part: &str) -> (r: Option<String>)
    ensures
        match r {
            Some(v) => spec_pair_value(part@) == Some(v@),
            None => spec_pair_value(part@) is None,
        },
{
    let i = match find_char(part, '=') {
        None => {
            return None;
        },
        Some(i) => i,
    };
    proof {
        lemma_find_range(part@, '=');
    }
    let n = part.unicode_len();
    let rest = part.substring_char(i + 1, n);
    match find_char(rest, '=') {
        None => Some(String::from_str(rest)),
        Some(j) => {
            proof {
                lemma_find_range(rest@, '=');
            }
            Some(String::from_str(rest.substring_char(0, j)))
        },
    }
}

/// The first `&`-separated part of `s`, as given by [`spec_first_part`].
fn first_part<'a>(s: &'a str) -> (r: &'a str)
    ensures
        r@ == spec_first_part(s@),
{
    match find_char(s, '&') {
        None => s,
        Some(i) => {
            proof {
                lemma_find_range(s@, '&');
            }
            s.substring_char(0, i)
        },
    }
}

/// The token and secret of a token response, in order: the values of its
/// first two `&`-separated `key=value` pairs, each absent when its pair or
/// its `=` is, as given by [`spec_token_values`].
pub fn parse_token_response(s: &str) -> (r: (Option<String>, Option<String>))
    ensures
        ({
            let (v1, v2) = spec_token_values(s@);
            &&& match r.0 {
                Some(a) => v1 == Some(a@),
                None => v1 is None,
            }
            &&& match r.1 {
                Some(b) => v2 == Some(b@),
                None => v2 is None,
            }
        }),
{
    let v1 = pair_value(first_part(s));
    let v2 = match find_char(s, '&') {
        None => None,
        Some(i) => {
            proof {
                lemma_find_range(s@, '&');
            }
            let n = s.unicode_len();
            let rest = s.substring_char(i + 1, n);
            pair_value(first_part(rest))
        },
    };
    (v1, v2)
}

} // verus!
