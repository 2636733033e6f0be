//! The shapes the core shares with the remote n8n server: the workflow
//! summary, the normalization of the configured host, the textual endpoint
//! layout, and the classification of HTTP status codes. The HTTP calls
//! themselves are made by the surrounding binary.

use crate::text::{ends_with, str_ends_with};
use vstd::prelude::*;

verus! {

/// A workflow as the server lists it: its identifier and display name.
pub struct Workflow {
    pub id: String,
    pub name: String,
}

impl Clone for Workflow {
    fn clone(&self) -> (r: Self)
        ensures
            r.id@ == self.id@,
            r.name@ == self.name@,
    {
        Workflow { id: self.id.clone(), name: self.name.clone() }
    }
}

/// Drops every trailing `/`.
pub open spec fn trim_trailing_slashes(s: Seq<char>) -> Seq<char>
    decreases s.len(),
{
    if s.len() == 0 {
        s
    } else if s[s.len() - 1] == '/' {
        trim_trailing_slashes(s.drop_last())
    } else {
        s
    }
}

/// Drops every leading `/`.
pub open spec fn trim_leading_slashes(s: Seq<char>) -> Seq<char>
    decreases s.len(),
{
    if s.len() == 0 {
        s
    } else if s[0] == '/' {
        trim_leading_slashes(s.drop_first())
    } else {
        s
    }
}

/// Strips every repetition of the suffix `suf` from the end of `s`.
pub open spec fn strip_suffix_runs(s: Seq<char>, suf: Seq<char>) -> Seq<char>
    decreases s.len(),
{
    if suf.len() > 0 && ends_with(s, suf) {
        strip_suffix_runs(s.subrange(0, s.len() - suf.len()), suf)
    } else {
        s
    }
}

/// The normalized base URL text of a configured host: trailing slashes
/// dropped, an already-present `/api/v1` (or `/v1`) suffix stripped, and a
/// single `/` appended.
pub open spec fn normalized_host(s: Seq<char>) -> Seq<char> {
    let t = trim_trailing_slashes(s);
    let u = if ends_with(t, "/api/v1"@) {
        strip_suffix_runs(t, "/api/v1"@)
    } else if ends_with(t, "/v1"@) {
        strip_suffix_runs(t, "/v1"@)
    } else {
        t
    };
    u + "/"@
}

proof fn lemma_trim_trailing_slashes_at(s: Seq<char>, k: int)
    requires
        0 <= k <= s.len(),
        forall|j: int| k <= j < s.len() ==> s[j] == '/',
        k > 0 ==> s[k - 1] != '/',
    ensures
        trim_trailing_slashes(s) == s.subrange(0, k),
    decreases s.len() - k,
{
    if k == s.len() {
        if s.len() == 0 || s[s.len() - 1] != '/' {
            assert(trim_trailing_slashes(s) =~= s.subrange(0, s.len() as int));
        } else {
            lemma_trim_trailing_slashes_at(s.drop_last(), k - 1);
        }
    } else {
        let t = s.drop_last();
        lemma_trim_trailing_slashes_at(t, k);
        assert(t.subrange(0, k) =~= s.subrange(0, k));
    }
}

proof fn lemma_trim_leading_slashes_at(s: Seq<char>, k: int)
    requires
        0 <= k <= s.len(),
        forall|j: int| 0 <= j < k ==> s[j] == '/',
        k < s.len() ==> s[k] != '/',
    ensures
        trim_leading_slashes(s) == s.subrange(k, s.len() as int),
    decreases k,
{
    if k == 0 {
        if s.len() == 0 || s[0] != '/' {
            assert(trim_leading_slashes(s) =~= s.subrange(0, s.len() as int));
        }
    } else {
        let t = s.drop_first();
        lemma_trim_leading_slashes_at(t, k - 1);
        assert(t.subrange(k - 1, t.len() as int) =~= s.subrange(k, s.len() as int));
    }
}

fn strip_runs_exec(s: String, suf: &str, suf_len: usize) -> (r: String)
    requires
        suf@.len() == suf_len,
        suf_len > 0,
    ensures
        r@ == strip_suffix_runs(s@, suf@),
    decreases s@.len(),
{
    let n: usize = s.as_str().unicode_len();
    if str_ends_with(s.as_str(), suf) {
        let shorter = String::from_str(s.as_str().substring_char(0, n - suf_len));
        strip_runs_exec(shorter, suf, suf_len)
    } else {
        s
    }
}

/// Normalizes the configured host into the base URL text every endpoint is
/// built on: no trailing slashes, no already-present API suffix, one final
/// `/`.
pub fn normalize_host(raw: &str) -> (r: String)
    ensures
        r@ == normalized_host(raw@),
{
    let n: usize = raw.unicode_len();
    let mut k: usize = n;
    while k > 0 && raw.get_char(k - 1) == '/'
        invariant
            n == raw@.len(),
            0 <= k <= n,
            forall|j: int| k <= j < n ==> raw@[j] == '/',
        decreases k,
    {
        k = k - 1;
    }
    proof {
        lemma_trim_trailing_slashes_at(raw@, k as int);
    }
    let trimmed = String::from_str(raw.substring_char(0, k));
    proof {
        reveal_strlit("/api/v1");
        reveal_strlit("/v1");
    }
    let stripped = if str_ends_with(trimmed.as_str(), "/api/v1") {
        strip_runs_exec(trimmed, "/api/v1", 7)
    } else if str_ends_with(trimmed.as_str(), "/v1") {
        strip_runs_exec(trimmed, "/v1", 3)
    } else {
        trimmed
    };
    stripped.concat("/")
}

/// The endpoint URL text for an API path: the normalized host, the fixed
/// `api/v1/` prefix, and the path with its leading slashes dropped.
pub fn endpoint_url(host: &str, path: &str) -> (r: String)
    ensures
        r@ == host@ + "api/v1/"@ + trim_leading_slashes(path@),
{
    let n: usize = path.unicode_len();
    let mut k: usize = 0;
    while k < n && path.get_char(k) == '/'
        invariant
            n == path@.len(),
            0 <= k <= n,
            forall|j: int| 0 <= j < k ==> path@[j] == '/',
        decreases n - k,
    {
        k = k + 1;
    }
    proof {
        lemma_trim_leading_slashes_at(path@, k as int);
    }
    String::from_str(host).concat("api/v1/").concat(path.substring_char(k, n))
}

/// How the core reads an HTTP status of the remote API.
#[derive(Clone, Copy, Debug, PartialEq, Eq, Structural)]
pub enum ApiStatus {
    /// The response carries the requested resource.
    Success,
    /// The API key was rejected.
    AuthFailed,
    /// The endpoint or the workflow does not exist.
    NotFound,
    /// Any other client or server error.
    HttpError,
}

/// How a status code is classified: `401` is an authentication failure,
/// `404` a missing resource, any other `4xx`/`5xx` a plain HTTP error,
/// everything else a success.
pub open spec fn status_class(code: u16) -> ApiStatus {
    if code == 401 {
        ApiStatus::AuthFailed
    } else if code == 404 {
        ApiStatus::NotFound
    } else if 400 <= code && code < 600 {
        ApiStatus::HttpError
    } else {
        ApiStatus::Success
    }
}

/// Classifies an HTTP status code of the remote API.
pub fn classify_status(code: u16) -> (r: ApiStatus)
    ensures
        r == status_class(code),
{
    if code == 401 {
        ApiStatus::AuthFailed
    } else if code == 404 {
        ApiStatus::NotFound
    } else if 400 <= code && code < 600 {
        ApiStatus::HttpError
    } else {
        ApiStatus::Success
    }
}

} // verus!
