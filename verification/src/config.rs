//! Validated runtime settings and the request URL built from them.

use vstd::prelude::*;
use vstd::string::StringExecFns;

verus! {

/// Configuration handed in by the (unverified) launcher. All fields are
/// treated as pre-validated text; nothing here re-checks their syntax.
#[derive(Clone)]
pub struct Config {
    /// Bearer credential for the streaming endpoint.
    pub auth_token: String,
    /// Account identifier interpolated into the request path.
    pub account_id: String,
    /// Deployment environment, `"fxtrade"` or `"fxpractice"`.
    pub environment: String,
    /// Comma-separated instrument codes.
    pub instruments: String,
    /// Local bind address for the publish socket.
    pub publish_bind_address: String,
}

/// What an unreserved character is for percent-encoding purposes:
/// ASCII alphanumerics and `-`, `_`, `.`, `~` pass through unchanged.
pub open spec fn is_unreserved(c: char) -> bool {
    ('a' <= c && c <= 'z') || ('A' <= c && c <= 'Z') || ('0' <= c && c <= '9') || c == '-'
        || c == '_' || c == '.' || c == '~'
}

/// True when every character of `s` is unreserved.
pub open spec fn all_unreserved(s: Seq<char>) -> bool {
    forall|i: int| 0 <= i < s.len() ==> is_unreserved(#[trigger] s[i])
}

/// The percent-encoding of `s`, as `urlencoding::encode` computes it.
pub uninterp spec fn url_encoded(s: Seq<char>) -> Seq<char>;

/// Relies on urlencoding::encode: percent-encodes every byte except ASCII
/// alphanumerics and `-`, `_`, `.`, `~`, leaving unreserved text unchanged;
/// the result depends on the input characters alone.
#[verifier::external_body]
fn url_encode(s: &str) -> (r: String)
    ensures
        r@ == url_encoded(s@),
        all_unreserved(s@) ==> r@ == s@,
{
    urlencoding::encode(s).into_owned()
}

impl Config {
    /// The scheme-and-host prefix of the streaming endpoint for this
    /// configuration's environment.
    pub fn base_url(&self) -> (r: String)
        ensures
            r@ == "https://stream-"@ + self.environment@ + ".vendor.example"@,
    {
        let mut url = String::from_str("https://stream-");
        url.append(self.environment.as_str());
        url.append(".vendor.example");
        url
    }

    /// The full pricing-stream request URL: the base URL, the account path,
    /// and the percent-encoded instrument list as the query string.
    pub fn stream_url(&self) -> (r: String)
        ensures
            r@ == "https://stream-"@ + self.environment@ + ".vendor.example"@
                + "/v3/accounts/"@ + self.account_id@ + "/pricing/stream?instruments="@
                + url_encoded(self.instruments@),
    {
        let mut url = self.base_url();
        url.append("/v3/accounts/");
        url.append(self.account_id.as_str());
        url.append("/pricing/stream?instruments=");
        let encoded = url_encode(self.instruments.as_str());
        url.append(encoded.as_str());
        url
    }
}

} // verus!
