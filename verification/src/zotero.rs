//! The group library that a run writes to, and the header values that its
//! answers carry.

use crate::batch::batches;
use crate::decimal::{decimal_u64, parse_u64};
use crate::sync::{PatchRun, Phase, PolicyView, RetryPolicy, Step};
use crate::PatchData;
use reqwest::header::HeaderValue;
use vstd::prelude::*;
use vstd::string::StringSliceAdditionalSpecFns;

verus! {

/// The header of a submission that names the version it was prepared for.
pub const IF_UNMODIFIED_SINCE_VERSION: &'static str = "If-Unmodified-Since-Version";

/// The header of an answer that names the version of the library. A version
/// fetch reads the version from this header, not from the body.
pub const LAST_MODIFIED_VERSION: &'static str = "Last-Modified-Version";

/// The header of a successful answer that asks for a pause.
pub const BACKOFF: &'static str = "Backoff";

/// The header of a rate-limited answer that says when to try again.
pub const RETRY_AFTER: &'static str = "Retry-After";

/// The seconds that a run waits before a retry for which the service names
/// no delay, unless its policy is changed.
pub const DEFAULT_MIN_BACKOFF_SECS: u64 = 1;

/// How often a run repeats one version fetch after answers with an unknown
/// status, unless its policy is changed.
pub const DEFAULT_MAX_RETRIES: u64 = 10;

/// The address of the group `group_id`.
pub open spec fn group_url(group_id: Seq<char>) -> Seq<char> {
    "https://api.zotero.org/groups/"@ + group_id
}

/// How a request is made.
#[derive(Clone, Copy, Debug, PartialEq, Eq)]
pub enum Method {
    Get,
    Post,
}

/// A request to the service, but for its authorisation: the driver sends
/// every request with the token of the library, [`Zotero::api_token`], as
/// bearer.
#[derive(Debug)]
pub struct Request {
    pub method: Method,
    pub url: String,
    /// The version to send in the `If-Unmodified-Since-Version` header,
    /// where the request has that header.
    pub if_unmodified_since_version: Option<u64>,
    /// The batch whose records are the body, as a JSON array, where the
    /// request has a body.
    pub body: Option<usize>,
}

/// A [`Request`] with its address as plain text.
pub struct RequestView {
    pub method: Method,
    pub url: Seq<char>,
    pub if_unmodified_since_version: Option<u64>,
    pub body: Option<usize>,
}

impl View for Request {
    type V = RequestView;

    open spec fn view(&self) -> RequestView {
        RequestView {
            method: self.method,
            url: self.url@,
            if_unmodified_since_version: self.if_unmodified_since_version,
            body: self.body,
        }
    }
}

/// The request that carries out `step` on the library at `base_url`: a
/// version fetch reads the collections, a submission posts the batch to the
/// items under the version it was prepared for, and the end of a run asks
/// for none.
pub open spec fn request_for(base_url: Seq<char>, step: Step) -> Option<RequestView> {
    match step {
        Step::FetchVersion => Some(
            RequestView {
                method: Method::Get,
                url: base_url + "/collections"@,
                if_unmodified_since_version: None,
                body: None,
            },
        ),
        Step::Submit { version, batch } => Some(
            RequestView {
                method: Method::Post,
                url: base_url + "/items"@,
                if_unmodified_since_version: Some(version),
                body: Some(batch),
            },
        ),
        Step::Finish(_) => None,
    }
}

/// A group library and the token that opens it.
pub struct Zotero<'a> {
    api_token: &'a str,
    base_url: String,
    policy: RetryPolicy,
}

/// What a [`Zotero`] holds, as plain values.
pub struct ZoteroView {
    pub api_token: Seq<char>,
    pub base_url: Seq<char>,
    pub policy: PolicyView,
}

impl<'a> View for Zotero<'a> {
    type V = ZoteroView;

    closed spec fn view(&self) -> ZoteroView {
        ZoteroView { api_token: self.api_token@, base_url: self.base_url@, policy: self.policy@ }
    }
}

impl<'a> Zotero<'a> {
    /// The library of group `group_id`, opened with `api_token`, under the
    /// default retry policy.
    pub fn set_group(group_id: &'a str, api_token: &'a str) -> (zotero: Zotero<'a>)
        ensures
            zotero@.api_token == api_token@,
            zotero@.base_url == group_url(group_id@),
            zotero@.policy == (PolicyView {
                min_backoff_secs: DEFAULT_MIN_BACKOFF_SECS,
                max_retries: DEFAULT_MAX_RETRIES,
            }),
    {
        let mut base_url = String::from_str("https://api.zotero.org/groups/");
        base_url.append(group_id);
        let policy = RetryPolicy::new(DEFAULT_MIN_BACKOFF_SECS, DEFAULT_MAX_RETRIES).unwrap();
        Zotero { api_token, base_url, policy }
    }

    /// The same library under another retry policy.
    pub fn with_policy(self, policy: RetryPolicy) -> (zotero: Zotero<'a>)
        ensures
            zotero@ == (ZoteroView { policy: policy@, ..self@ }),
    {
        Zotero { api_token: self.api_token, base_url: self.base_url, policy }
    }

    /// The token that requests carry as bearer authorisation.
    pub fn api_token(&self) -> (token: &'a str)
        ensures
            token@ == self@.api_token,
    {
        self.api_token
    }

    /// The retry policy of runs on this library.
    pub fn policy(&self) -> (policy: RetryPolicy)
        ensures
            policy@ == self@.policy,
    {
        self.policy
    }

    /// The address that a version fetch reads.
    pub fn version_url(&self) -> (url: String)
        ensures
            url@ == self@.base_url + "/collections"@,
    {
        let mut url = self.base_url.clone();
        url.append("/collections");
        url
    }

    /// The address that batches are submitted to.
    pub fn items_url(&self) -> (url: String)
        ensures
            url@ == self@.base_url + "/items"@,
    {
        let mut url = self.base_url.clone();
        url.append("/items");
        url
    }

    /// The request that carries out `step`, if it takes one.
    pub fn request(&self, step: Step) -> (request: Option<Request>)
        ensures
            match request {
                Some(made) => request_for(self@.base_url, step) == Some(made@),
                None => request_for(self@.base_url, step) is None,
            },
    {
        match step {
            Step::FetchVersion => Some(
                Request {
                    method: Method::Get,
                    url: self.version_url(),
                    if_unmodified_since_version: None,
                    body: None,
                },
            ),
            Step::Submit { version, batch } => Some(
                Request {
                    method: Method::Post,
                    url: self.items_url(),
                    if_unmodified_since_version: Some(version),
                    body: Some(batch),
                },
            ),
            Step::Finish(_) => None,
        }
    }

    /// Starts a run that applies `data` to the library: in order, in batches
    /// of at most `BATCH_SIZE` records, one batch at a time. Nothing has
    /// been sent yet: the run says what is due. With no records the run has
    /// ended at once, with success.
    pub fn patch_all(&self, data: Vec<PatchData>) -> (run: PatchRun)
        ensures
            run@.wf(),
            run@.batches == batches(data@),
            run@.records() == data@,
            run@.policy == self@.policy,
            run@.index == 0,
            run@.phase == (if data@.len() == 0 {
                Phase::Done(Ok(()))
            } else {
                Phase::Fetch { retries: 0 }
            }),
    {
        PatchRun::new(self.policy, data)
    }
}

#[verifier::external_type_specification]
#[verifier::external_body]
pub struct ExHeaderValue(reqwest::header::HeaderValue);

/// The bytes that a header value holds: what `HeaderValue::as_bytes` gives.
pub uninterp spec fn header_bytes(value: HeaderValue) -> Seq<u8>;

/// Whether `b` is a printable ASCII character, a space or a tab.
pub open spec fn is_visible_ascii(b: u8) -> bool {
    32 <= b < 127 || b == 9
}

/// Whether every byte of `s` is visible ASCII.
pub open spec fn all_visible_ascii(s: Seq<u8>) -> bool {
    forall|i: int| 0 <= i < s.len() ==> is_visible_ascii(#[trigger] s[i])
}

/// `HeaderValue::to_str`: the value as text. Trusted: the call succeeds
/// exactly when every byte of the value is visible ASCII, and the text then
/// has the bytes of the value.
#[verifier::external_body]
fn header_text(value: &HeaderValue) -> (text: Option<&str>)
    ensures
        text is Some <==> all_visible_ascii(header_bytes(*value)),
        text matches Some(t) ==> t.spec_bytes() == header_bytes(*value),
{
    value.to_str().ok()
}

/// A decimal number is written in visible ASCII.
pub proof fn lemma_number_is_visible(s: Seq<u8>)
    requires
        decimal_u64(s) is Some,
    ensures
        all_visible_ascii(s),
{
    let digits = crate::decimal::unsigned_part(s);
    assert forall|i: int| 0 <= i < s.len() implies is_visible_ascii(#[trigger] s[i]) by {
        if s[0] == 43 {
            if i > 0 {
                assert(digits[i - 1] == s[i]);
            }
        } else {
            assert(digits[i] == s[i]);
        }
    }
}

/// Reading a header value as a number of seconds or as a library version.
pub trait HeaderValueExt {
    /// The bytes of the value.
    spec fn value_bytes(&self) -> Seq<u8>;

    /// The number that the value writes in decimal, or `None` where it
    /// writes none that fits in 64 bits.
    fn to_u64(&self) -> (number: Option<u64>)
        ensures
            number == decimal_u64(self.value_bytes()),
    ;
}

impl HeaderValueExt for HeaderValue {
    open spec fn value_bytes(&self) -> Seq<u8> {
        header_bytes(*self)
    }

    fn to_u64(&self) -> (number: Option<u64>) {
        match header_text(self) {
            Some(text) => parse_u64(text.as_bytes()),
            None => {
                proof {
                    if decimal_u64(header_bytes(*self)) is Some {
                        lemma_number_is_visible(header_bytes(*self));
                    }
                }
                None
            },
        }
    }
}

} // verus!
