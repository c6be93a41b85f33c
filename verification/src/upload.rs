//! Uploading a finished run to the EvalForge API: the target ([`Upload`]), the ingest URL and
//! authorization header it posts with, and the parsed reply ([`UploadResponse`]).
use vstd::prelude::*;

use crate::text::owned;

verus! {

/// The EvalForge host every upload goes to.
pub const EVALFORGE_BASE_URL: &'static str = "https://evalforge.ai";

/// The base URL an upload posts to. Outside this crate it can be read but not built, so every
/// upload goes to the EvalForge host.
#[derive(Debug, Clone)]
pub struct ApiBase {
    url: String,
}

impl View for ApiBase {
    type V = Seq<char>;

    closed spec fn view(&self) -> Seq<char> {
        self.url@
    }
}

impl ApiBase {
    /// The URL as text.
    pub fn as_str(&self) -> (r: &str)
        ensures
            r@ == self@,
    {
        self.url.as_str()
    }
}

/// Where and how to upload a run. Built through the `RunMeta` builder. It has no `Debug`, so
/// the API key is never printed.
#[derive(Clone)]
pub struct Upload {
    /// The EvalForge project id the run is uploaded under.
    pub project_id: String,
    /// The account API key, sent as `Authorization: Bearer {api_key}`.
    pub api_key: String,
    /// The model / grouping key recorded on the uploaded record (used only without a persist
    /// target).
    pub model: String,
    /// The backend kind recorded on the uploaded record (used only without a persist target).
    pub backend: String,
    /// The case directory recorded on the uploaded record (used only without a persist target).
    pub cases_dir: String,
    /// The API base URL: [`EVALFORGE_BASE_URL`] (only the crate itself can redirect it).
    pub base_url: ApiBase,
}

impl Upload {
    /// An upload under `project_id` authenticated with `api_key`; model, backend and cases dir
    /// start empty and the base URL is the EvalForge host.
    pub fn new(project_id: String, api_key: String) -> (r: Self)
        ensures
            r.project_id == project_id,
            r.api_key == api_key,
            r.model@.len() == 0,
            r.backend@.len() == 0,
            r.cases_dir@.len() == 0,
            r.base_url@ == EVALFORGE_BASE_URL@,
    {
        Upload {
            project_id,
            api_key,
            model: String::new(),
            backend: String::new(),
            cases_dir: String::new(),
            base_url: ApiBase { url: owned(EVALFORGE_BASE_URL) },
        }
    }

    /// The same upload posting to `base_url` instead, to aim it at a local server. Crate-only:
    /// the endpoint is fixed for every user of the library.
    #[allow(dead_code)]
    pub(crate) fn with_base_url(self, base_url: String) -> (r: Self)
        ensures
            r.project_id == self.project_id,
            r.api_key == self.api_key,
            r.model == self.model,
            r.backend == self.backend,
            r.cases_dir == self.cases_dir,
            r.base_url@ == base_url@,
    {
        let mut r = self;
        r.base_url = ApiBase { url: base_url };
        r
    }

    /// The URL this upload posts to.
    pub fn url(&self) -> (r: String)
        ensures
            r@ == endpoint_text(self.base_url@, self.project_id@),
    {
        endpoint_url(self.base_url.url.as_str(), self.project_id.as_str())
    }

    /// The value of the `Authorization` header: `Bearer {api_key}`.
    pub fn authorization(&self) -> (r: String)
        ensures
            r@ == seq!['B', 'e', 'a', 'r', 'e', 'r', ' '] + self.api_key@,
    {
        let mut r = String::from_str("Bearer ");
        r.append(self.api_key.as_str());
        proof {
            reveal_strlit("Bearer ");
        }
        r
    }
}

/// The EvalForge ingest reply: the id of the created (or replaced) run, and whether it
/// replaced an earlier upload with the same dedup key.
#[derive(Debug, Clone)]
pub struct UploadResponse {
    pub run_id: String,
    pub deduped: bool,
}

/// The number of `/` at the end of `s`.
pub open spec fn trailing_slashes(s: Seq<char>) -> nat
    decreases s.len(),
{
    if s.len() > 0 && s.last() == '/' {
        1 + trailing_slashes(s.drop_last())
    } else {
        0
    }
}

/// `s` without its trailing `/`s.
pub open spec fn trim_trailing_slashes(s: Seq<char>) -> Seq<char> {
    s.take(s.len() - trailing_slashes(s))
}

/// The ingest URL: `{base_url without trailing /}/api/projects/{project_id}/runs`.
pub open spec fn endpoint_text(base_url: Seq<char>, project_id: Seq<char>) -> Seq<char> {
    trim_trailing_slashes(base_url) + "/api/projects/"@ + project_id + "/runs"@
}

proof fn lemma_trailing_slashes(s: Seq<char>, k: int)
    requires
        0 <= k <= s.len(),
        forall|j: int| k <= j < s.len() ==> #[trigger] s[j] == '/',
        k == 0 || s[k - 1] != '/',
    ensures
        trailing_slashes(s) == s.len() - k,
    decreases s.len() - k,
{
    if k < s.len() {
        let u = s.drop_last();
        assert forall|j: int| k <= j < u.len() implies #[trigger] u[j] == '/' by {
            assert(u[j] == s[j]);
        }
        lemma_trailing_slashes(u, k);
    }
}

/// The ingest URL for `project_id` under `base_url`; trailing slashes of `base_url` are
/// dropped so the path never holds `//`.
pub fn endpoint_url(base_url: &str, project_id: &str) -> (r: String)
    ensures
        r@ == endpoint_text(base_url@, project_id@),
{
    let cs = crate::text::chars_of(base_url);
    let mut k: usize = cs.len();
    while k > 0 && cs[k - 1] == '/'
        invariant
            cs@ == base_url@,
            k <= cs.len(),
            forall|j: int| k <= j < cs.len() ==> #[trigger] cs@[j] == '/',
        decreases k,
    {
        k = k - 1;
    }
    proof {
        lemma_trailing_slashes(base_url@, k as int);
    }
    let mut r = String::new();
    let mut i: usize = 0;
    while i < k
        invariant
            cs@ == base_url@,
            i <= k <= cs.len(),
            r@ == base_url@.take(i as int),
        decreases k - i,
    {
        crate::text::push_char(&mut r, cs[i]);
        i = i + 1;
        assert(r@ =~= base_url@.take(i as int));
    }
    r.append("/api/projects/");
    r.append(project_id);
    r.append("/runs");
    r
}

} // verus!
